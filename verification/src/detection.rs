//! Reading the coherence line size off the running system: what a probe
//! file holds, and how the readings of all files become one line size.

use vstd::prelude::*;
use hashbrown::HashMap;
use crate::arch::{Arch, FALLBACK_COHERENCE_LINE_SIZE};
use crate::args::CuneiformArgs;
use crate::error::ProbeError;
use crate::slabs::{slab_entries, slab_fetch, slab_line_size};
use crate::text::{chars_of, str_eq};

verus! {

/// Directory under which the probe files of all processors are found.
pub const LINUX_CPU_PROC_PROBE: &'static str = "/sys/devices/system/cpu/";

/// Name of the file that holds the coherence line size of one cache.
pub const CACHE_LINE_PROBE: &'static str = "coherency_line_size";

/// Says whether a file of this name is a probe file. Names are matched
/// exactly.
pub fn is_cache_line_probe(file_name: &str) -> (hit: bool)
    ensures
        hit == (file_name@ == CACHE_LINE_PROBE@),
{
    str_eq(file_name, CACHE_LINE_PROBE)
}

/// White space: the characters with the Unicode property `White_Space`.
pub open spec fn is_whitespace(c: char) -> bool {
    let u = c as u32;
    ||| 0x09 <= u <= 0x0D
    ||| u == 0x20
    ||| u == 0x85
    ||| u == 0xA0
    ||| u == 0x1680
    ||| 0x2000 <= u <= 0x200A
    ||| u == 0x2028
    ||| u == 0x2029
    ||| u == 0x202F
    ||| u == 0x205F
    ||| u == 0x3000
}

/// The decimal digits `0` to `9`.
pub open spec fn is_digit(c: char) -> bool {
    0x30 <= c as u32 <= 0x39
}

/// The number that a decimal digit stands for.
pub open spec fn digit_value(c: char) -> nat {
    (c as u32 - 0x30) as nat
}

/// `s` without the white space it starts with.
pub open spec fn trim_start(s: Seq<char>) -> Seq<char>
    decreases s.len(),
{
    if s.len() > 0 && is_whitespace(s.first()) {
        trim_start(s.drop_first())
    } else {
        s
    }
}

/// `s` without the white space it ends with.
pub open spec fn trim_end(s: Seq<char>) -> Seq<char>
    decreases s.len(),
{
    if s.len() > 0 && is_whitespace(s.last()) {
        trim_end(s.drop_last())
    } else {
        s
    }
}

/// `s` without the white space around it.
pub open spec fn trimmed(s: Seq<char>) -> Seq<char> {
    trim_end(trim_start(s))
}

/// The number that a run of decimal digits denotes, the first digit being
/// the most significant.
pub open spec fn digits_value(digits: Seq<char>) -> nat
    decreases digits.len(),
{
    if digits.len() == 0 {
        0
    } else {
        digits_value(digits.drop_last()) * 10 + digit_value(digits.last())
    }
}

/// Says whether every character of `s` is a decimal digit.
pub open spec fn all_digits(s: Seq<char>) -> bool {
    forall|i: int| 0 <= i < s.len() ==> is_digit(#[trigger] s[i])
}

/// `t` without the `+` it may start with.
pub open spec fn unsigned_part(t: Seq<char>) -> Seq<char> {
    if t.len() > 0 && t.first() == '+' {
        t.drop_first()
    } else {
        t
    }
}

/// The number that `t` denotes: one or more decimal digits, with or without
/// a `+` before them. Anything else denotes no number.
pub open spec fn unsigned_of(t: Seq<char>) -> Option<nat> {
    let digits = unsigned_part(t);
    if digits.len() > 0 && all_digits(digits) {
        Some(digits_value(digits))
    } else {
        None
    }
}

/// The reading that the contents of a probe file give: the number they
/// denote once the white space around it is set aside, provided it fits the
/// machine word.
pub open spec fn reading_of(text: Seq<char>) -> Result<usize, ProbeError> {
    match unsigned_of(trimmed(text)) {
        Some(n) => if n <= usize::MAX {
            Ok(n as usize)
        } else {
            Err(ProbeError::ParseFailure)
        },
        None => Err(ProbeError::ParseFailure),
    }
}

fn whitespace(c: char) -> (yes: bool)
    ensures
        yes == is_whitespace(c),
{
    let u: u32 = c as u32;
    (0x09 <= u && u <= 0x0D) || u == 0x20 || u == 0x85 || u == 0xA0 || u == 0x1680 || (0x2000 <= u
        && u <= 0x200A) || u == 0x2028 || u == 0x2029 || u == 0x202F || u == 0x205F || u == 0x3000
}

/// A prefix of a run of digits denotes no more than the whole run.
proof fn lemma_digits_value_prefix(digits: Seq<char>, k: int)
    requires
        0 <= k <= digits.len(),
    ensures
        digits_value(digits.take(k)) <= digits_value(digits),
    decreases digits.len(),
{
    if k == digits.len() {
        assert(digits.take(k) =~= digits);
    } else {
        lemma_digits_value_prefix(digits.drop_last(), k);
        assert(digits.drop_last().take(k) =~= digits.take(k));
    }
}

/// Trimming at the front goes on behind a white space character.
proof fn lemma_trim_start_step(s: Seq<char>, i: int)
    requires
        0 <= i < s.len(),
        is_whitespace(s[i]),
    ensures
        trim_start(s.subrange(i, s.len() as int)) == trim_start(s.subrange(i + 1, s.len() as int)),
{
    let rest = s.subrange(i, s.len() as int);
    assert(rest.first() == s[i]);
    assert(rest.drop_first() =~= s.subrange(i + 1, s.len() as int));
}

/// Trimming at the back goes on before a white space character.
proof fn lemma_trim_end_step(s: Seq<char>, i: int, j: int)
    requires
        0 <= i < j <= s.len(),
        is_whitespace(s[j - 1]),
    ensures
        trim_end(s.subrange(i, j)) == trim_end(s.subrange(i, j - 1)),
{
    let part = s.subrange(i, j);
    assert(part.last() == s[j - 1]);
    assert(part.drop_last() =~= s.subrange(i, j - 1));
}

/// Finds where the text between the white space begins and ends.
fn trim_bounds(chars: &Vec<char>) -> (bounds: (usize, usize))
    ensures
        bounds.0 <= bounds.1 <= chars.len(),
        trimmed(chars@) == chars@.subrange(bounds.0 as int, bounds.1 as int),
{
    let ghost s = chars@;
    let n = chars.len();
    let mut start: usize = 0;
    assert(s.subrange(0, n as int) =~= s);
    while start < n && whitespace(chars[start])
        invariant
            n == chars.len(),
            s == chars@,
            start <= n,
            trim_start(s) == trim_start(s.subrange(start as int, n as int)),
        decreases n - start,
    {
        proof {
            lemma_trim_start_step(s, start as int);
        }
        start += 1;
    }
    assert(trim_start(s) == s.subrange(start as int, n as int)) by {
        if start < n {
            assert(s.subrange(start as int, n as int).first() == s[start as int]);
        }
    }
    let mut end: usize = n;
    while end > start && whitespace(chars[end - 1])
        invariant
            n == chars.len(),
            s == chars@,
            start <= end <= n,
            trimmed(s) == trim_end(s.subrange(start as int, end as int)),
        decreases end - start,
    {
        proof {
            lemma_trim_end_step(s, start as int, end as int);
        }
        end -= 1;
    }
    assert(trimmed(s) == s.subrange(start as int, end as int)) by {
        if end > start {
            assert(s.subrange(start as int, end as int).last() == s[end - 1]);
        }
    }
    (start, end)
}

/// Reads the digits `chars[from..to]` as one number, if they are digits and
/// the number fits the machine word.
fn parse_digits(chars: &Vec<char>, from: usize, to: usize) -> (number: Option<usize>)
    requires
        from <= to <= chars.len(),
    ensures
        number == ({
            let digits = chars@.subrange(from as int, to as int);
            if all_digits(digits) && digits_value(digits) <= usize::MAX {
                Some(digits_value(digits) as usize)
            } else {
                None
            }
        }),
{
    let ghost digits = chars@.subrange(from as int, to as int);
    let mut value: usize = 0;
    let mut k: usize = from;
    assert(digits.take(0) =~= Seq::<char>::empty());
    while k < to
        invariant
            from <= k <= to <= chars.len(),
            digits == chars@.subrange(from as int, to as int),
            all_digits(digits.take(k - from)),
            value == digits_value(digits.take(k - from)),
        decreases to - k,
    {
        let c = chars[k];
        let u: u32 = c as u32;
        assert(digits[k - from] == c);
        if u < 0x30 || u > 0x39 {
            return None;
        }
        let digit: usize = (u - 0x30) as usize;
        proof {
            let longer = digits.take(k - from + 1);
            assert(longer.drop_last() =~= digits.take(k - from));
            assert(longer.last() == c);
            assert(digits_value(longer) == value * 10 + digit);
            assert(all_digits(longer)) by {
                assert forall|i: int| 0 <= i < longer.len() implies is_digit(#[trigger] longer[i]) by {
                    if i < k - from {
                        assert(longer[i] == digits.take(k - from)[i]);
                    }
                }
            }
            lemma_digits_value_prefix(digits, k - from + 1);
        }
        let scaled = match value.checked_mul(10) {
            Some(v) => v,
            None => {
                return None;
            },
        };
        value = match scaled.checked_add(digit) {
            Some(v) => v,
            None => {
                return None;
            },
        };
        k += 1;
    }
    assert(digits.take(to - from) =~= digits);
    Some(value)
}

/// Reads the contents of one probe file: an unsigned decimal number with
/// optional white space around it.
pub fn parse_reading(text: &str) -> (reading: Result<usize, ProbeError>)
    ensures
        reading == reading_of(text@),
{
    let chars = chars_of(text);
    let (start, end) = trim_bounds(&chars);
    let ghost t = chars@.subrange(start as int, end as int);
    let mut at: usize = start;
    if at < end && chars[at] == '+' {
        at += 1;
    }
    proof {
        let digits = chars@.subrange(at as int, end as int);
        if start < end {
            assert(t.first() == chars@[start as int]);
        }
        if at > start {
            assert(t.drop_first() =~= digits);
        } else {
            assert(t =~= digits);
        }
        assert(unsigned_part(t) == digits);
    }
    if at == end {
        return Err(ProbeError::ParseFailure);
    }
    match parse_digits(&chars, at, end) {
        Some(number) => Ok(number),
        None => Err(ProbeError::ParseFailure),
    }
}

/// What became of reading one probe file.
pub enum ProbeFile {
    /// The file could not be read.
    Unreadable,
    /// The file was read, and this is all it holds.
    Contents(String),
}

/// A [`ProbeFile`] as plain values.
pub enum FileView {
    Unreadable,
    Contents(Seq<char>),
}

impl View for ProbeFile {
    type V = FileView;

    open spec fn view(&self) -> FileView {
        match self {
            ProbeFile::Unreadable => FileView::Unreadable,
            ProbeFile::Contents(text) => FileView::Contents(text@),
        }
    }
}

/// What the prober of the host delivers.
pub enum Probe {
    /// The host has no way to tell its line sizes.
    Unsupported,
    /// The host describes its caches in files: one entry for each probe
    /// file, in the order in which the files were met.
    Native(Vec<ProbeFile>),
}

/// A [`Probe`] as plain values.
pub enum ProbeView {
    Unsupported,
    Native(Seq<FileView>),
}

/// The views of some probe files, in their order.
pub open spec fn file_views(files: Seq<ProbeFile>) -> Seq<FileView> {
    files.map_values(|file: ProbeFile| file@)
}

impl View for Probe {
    type V = ProbeView;

    open spec fn view(&self) -> ProbeView {
        match self {
            Probe::Unsupported => ProbeView::Unsupported,
            Probe::Native(files) => ProbeView::Native(file_views(files@)),
        }
    }
}

/// The reading that one probe file gives, or why it gives none.
pub open spec fn file_reading(file: FileView) -> Result<usize, ProbeError> {
    match file {
        FileView::Unreadable => Err(ProbeError::ReadFailure),
        FileView::Contents(text) => reading_of(text),
    }
}

/// The readings of all files, in their order; or, where some file gives
/// none, the failure of the first such file.
pub open spec fn readings_of(files: Seq<FileView>) -> Result<Seq<usize>, ProbeError>
    decreases files.len(),
{
    if files.len() == 0 {
        Ok(Seq::empty())
    } else {
        match readings_of(files.drop_last()) {
            Err(e) => Err(e),
            Ok(before) => match file_reading(files.last()) {
                Err(e) => Err(e),
                Ok(reading) => Ok(before.push(reading)),
            },
        }
    }
}

/// The least of some readings; the fallback where there are none.
pub open spec fn aggregated(readings: Seq<usize>) -> usize
    decreases readings.len(),
{
    if readings.len() == 0 {
        FALLBACK_COHERENCE_LINE_SIZE
    } else if readings.len() == 1 {
        readings.last()
    } else {
        let least = aggregated(readings.drop_last());
        if readings.last() < least {
            readings.last()
        } else {
            least
        }
    }
}

/// Says whether `size` is one of the readings and none of them is below it.
pub open spec fn is_least_of(size: usize, readings: Seq<usize>) -> bool {
    readings.contains(size) && (forall|i: int|
        0 <= i < readings.len() ==> size <= #[trigger] readings[i])
}

/// The line size that the files of a probe give.
pub open spec fn probed_line_size(files: Seq<FileView>) -> Result<usize, ProbeError> {
    match readings_of(files) {
        Ok(readings) => Ok(aggregated(readings)),
        Err(e) => Err(e),
    }
}

/// The line size that hermetic detection gives: that of the probe where the
/// host can be probed, that of the slab table and the target where it cannot.
pub open spec fn detected_line_size(
    slab: Seq<char>,
    entries: Map<Seq<char>, u8>,
    arch: Option<Arch>,
    probe: ProbeView,
) -> Result<usize, ProbeError> {
    match probe {
        ProbeView::Unsupported => Ok(slab_line_size(slab, entries, arch)),
        ProbeView::Native(files) => probed_line_size(files),
    }
}

/// Says whether `readings` are the readings of `files`, file by file.
pub open spec fn reads_as(files: Seq<FileView>, readings: Seq<usize>) -> bool {
    &&& readings.len() == files.len()
    &&& forall|i: int|
        0 <= i < files.len() ==> #[trigger] file_reading(files[i]) is Ok && file_reading(
            files[i],
        )->Ok_0 == readings[i]
}

/// Says whether file `k` is the first that gives no reading, and fails
/// with `e`.
pub open spec fn fails_first_at(files: Seq<FileView>, k: int, e: ProbeError) -> bool {
    &&& 0 <= k < files.len()
    &&& file_reading(files[k]) is Err
    &&& file_reading(files[k])->Err_0 == e
    &&& forall|j: int| 0 <= j < k ==> #[trigger] file_reading(files[j]) is Ok
}

/// Where `readings_of` gives readings, they are those of the files, file by
/// file; where it gives a failure, it is that of the first file that gives
/// no reading.
pub proof fn lemma_readings_of(files: Seq<FileView>)
    ensures
        readings_of(files) matches Ok(readings) ==> reads_as(files, readings),
        readings_of(files) matches Err(e) ==> exists|k: int| #[trigger] fails_first_at(files, k, e),
    decreases files.len(),
{
    if files.len() > 0 {
        let front = files.drop_last();
        let last = files.len() - 1;
        lemma_readings_of(front);
        match readings_of(front) {
            Err(e) => {
                let k = choose|k: int| #[trigger] fails_first_at(front, k, e);
                assert(files[k] == front[k]);
                assert forall|j: int| 0 <= j < k implies #[trigger] file_reading(files[j]) is Ok by {
                    assert(files[j] == front[j]);
                }
                assert(fails_first_at(files, k, e));
            },
            Ok(before) => {
                assert forall|j: int| 0 <= j < last implies #[trigger] file_reading(
                    files[j],
                ) is Ok && file_reading(files[j])->Ok_0 == before[j] by {
                    assert(files[j] == front[j]);
                    assert(file_reading(front[j]) is Ok);
                }
                match file_reading(files.last()) {
                    Err(e) => {
                        assert(fails_first_at(files, last, e));
                    },
                    Ok(reading) => {
                        assert(reads_as(files, before.push(reading)));
                    },
                }
            },
        }
    }
}

/// The least of some readings is one of them, and none is below it.
pub proof fn lemma_aggregated_is_least(readings: Seq<usize>)
    requires
        readings.len() > 0,
    ensures
        is_least_of(aggregated(readings), readings),
    decreases readings.len(),
{
    let last = readings.len() - 1;
    if readings.len() == 1 {
        assert(readings[last] == aggregated(readings));
    } else {
        let front = readings.drop_last();
        lemma_aggregated_is_least(front);
        let least = aggregated(front);
        if readings.last() < least {
            assert(readings[last] == aggregated(readings));
        } else {
            let at = choose|i: int| 0 <= i < front.len() && front[i] == least;
            assert(readings[at] == least);
        }
        assert forall|i: int| 0 <= i < readings.len() implies aggregated(readings)
            <= #[trigger] readings[i] by {
            if i < last {
                assert(front[i] == readings[i]);
            }
        }
    }
}

impl ProbeFile {
    /// Reads the number that the file holds.
    pub fn reading(&self) -> (reading: Result<usize, ProbeError>)
        ensures
            reading == file_reading(self@),
    {
        match self {
            ProbeFile::Unreadable => Err(ProbeError::ReadFailure),
            ProbeFile::Contents(text) => parse_reading(text.as_str()),
        }
    }
}

/// Takes the reading of each file in turn and stops at the first file that
/// gives none.
pub fn collect_readings(files: &Vec<ProbeFile>) -> (collected: Result<Vec<usize>, ProbeError>)
    ensures
        collected matches Ok(ways) ==> readings_of(file_views(files@)) matches Ok(readings)
            && readings == ways@,
        collected matches Err(e) ==> readings_of(file_views(files@)) matches Err(first)
            && first == e,
        collected matches Ok(ways) ==> reads_as(file_views(files@), ways@),
        collected matches Err(e) ==> exists|k: int| #[trigger]
            fails_first_at(file_views(files@), k, e),
{
    let ghost views = file_views(files@);
    let mut ways: Vec<usize> = Vec::new();
    let mut i: usize = 0;
    assert(views.take(0) =~= Seq::<FileView>::empty());
    while i < files.len()
        invariant
            i <= files.len(),
            views == file_views(files@),
            readings_of(views.take(i as int)) matches Ok(readings) && readings == ways@,
        decreases files.len() - i,
    {
        let ghost upto = views.take(i + 1);
        proof {
            assert(upto.drop_last() =~= views.take(i as int));
            assert(upto.last() == files@[i as int]@);
        }
        match files[i].reading() {
            Ok(way) => {
                ways.push(way);
            },
            Err(e) => {
                proof {
                    lemma_failure_stays(views, i + 1);
                    lemma_readings_of(views);
                }
                return Err(e);
            },
        }
        i += 1;
    }
    proof {
        assert(views.take(files.len() as int) =~= views);
        lemma_readings_of(views);
    }
    Ok(ways)
}

/// A failure among the first `k` files is the failure of all of them.
proof fn lemma_failure_stays(files: Seq<FileView>, k: int)
    requires
        0 <= k <= files.len(),
        readings_of(files.take(k)) is Err,
    ensures
        readings_of(files) == readings_of(files.take(k)),
    decreases files.len(),
{
    if k == files.len() {
        assert(files.take(k) =~= files);
    } else {
        assert(files.drop_last().take(k) =~= files.take(k));
        lemma_failure_stays(files.drop_last(), k);
    }
}

/// The least of all readings, or the fallback where there is no reading.
pub fn aggregate(readings: &Vec<usize>) -> (size: usize)
    ensures
        size == aggregated(readings@),
        readings.len() == 0 ==> size == FALLBACK_COHERENCE_LINE_SIZE,
        readings.len() > 0 ==> is_least_of(size, readings@),
{
    if readings.len() == 0 {
        return FALLBACK_COHERENCE_LINE_SIZE;
    }
    let mut least: usize = readings[0];
    let mut i: usize = 1;
    assert(readings@.take(1).drop_last() =~= Seq::<usize>::empty());
    while i < readings.len()
        invariant
            1 <= i <= readings.len(),
            least == aggregated(readings@.take(i as int)),
        decreases readings.len() - i,
    {
        proof {
            let upto = readings@.take(i + 1);
            assert(upto.drop_last() =~= readings@.take(i as int));
            assert(upto.last() == readings[i as int]);
        }
        if readings[i] < least {
            least = readings[i];
        }
        i += 1;
    }
    proof {
        assert(readings@.take(readings.len() as int) =~= readings@);
        lemma_aggregated_is_least(readings@);
    }
    least
}

/// Resolves the line size by asking the running system. Where the host can
/// be probed, this is the least of the readings of its probe files, the
/// fallback where it has no such file, and the failure of the first file
/// that is unreadable or malformed. Where the host cannot be probed, it is
/// what [`slab_fetch`] gives.
pub fn hermetic_detection(
    args: CuneiformArgs,
    table: &HashMap<&'static str, u8>,
    arch: Option<Arch>,
    probe: &Probe,
) -> (size: Result<usize, ProbeError>)
    ensures
        size == detected_line_size(args@.slab, slab_entries(*table), arch, probe@),
{
    match probe {
        Probe::Unsupported => Ok(slab_fetch(args, table, arch)),
        Probe::Native(files) => match collect_readings(files) {
            Ok(ways) => Ok(aggregate(&ways)),
            Err(e) => Err(e),
        },
    }
}

} // verus!
