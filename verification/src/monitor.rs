//! Limits on the resources a fuzzing campaign may take, and the readings
//! of the machine's memory and CPU time from the text of `/proc/meminfo`
//! and `/proc/stat`.
use crate::text::{chars_of, is_unicode_whitespace, is_whitespace_char};
use vstd::prelude::*;

verus! {

/// How much of the machine the fuzzer may use before it holds back.
#[derive(Debug, Clone, Copy, PartialEq, Eq, Structural)]
pub struct ResourceLimits {
    /// The largest CPU usage, in percent.
    pub max_cpu_percent: u8,
    /// The largest memory usage, in percent.
    pub max_memory_percent: u8,
    /// The deepest task queue before throttling.
    pub max_queue_depth: u64,
    /// The least memory that must stay available, in bytes.
    pub min_available_memory: u64,
}

impl Default for ResourceLimits {
    /// 90% CPU, 85% memory, 10000 queued tasks, 512 MiB kept free.
    fn default() -> (l: Self)
        ensures
            l.max_cpu_percent == 90,
            l.max_memory_percent == 85,
            l.max_queue_depth == 10000,
            l.min_available_memory == 512 * 1024 * 1024,
    {
        ResourceLimits {
            max_cpu_percent: 90,
            max_memory_percent: 85,
            max_queue_depth: 10000,
            min_available_memory: 512 * 1024 * 1024,
        }
    }
}

/// The lines of a text, split at each line feed. A carriage return before a
/// line feed stays in its line, and a text that ends in a line feed ends
/// with an empty line; neither changes what a line's words are or whether
/// it starts with a key, so the readings below come out as with
/// `str::lines`.
pub open spec fn split_lines(s: Seq<char>) -> Seq<Seq<char>>
    decreases s.len(),
{
    if s.len() == 0 {
        seq![seq![]]
    } else {
        let r = split_lines(s.drop_last());
        if s.last() == '\n' {
            r.push(seq![])
        } else {
            r.update(r.len() - 1, r.last().push(s.last()))
        }
    }
}

/// The words of a line: its maximal runs of characters that are not white
/// space, in order, as `str::split_whitespace` gives them.
pub open spec fn split_words(s: Seq<char>) -> Seq<Seq<char>>
    decreases s.len(),
{
    if s.len() == 0 {
        seq![]
    } else {
        let r = split_words(s.drop_last());
        if is_unicode_whitespace(s.last()) {
            r
        } else if s.len() >= 2 && !is_unicode_whitespace(s[s.len() - 2]) {
            r.update(r.len() - 1, r.last().push(s.last()))
        } else {
            r.push(seq![s.last()])
        }
    }
}

/// Whether a text starts with a prefix.
pub open spec fn starts_with(s: Seq<char>, p: Seq<char>) -> bool {
    p.len() <= s.len() && s.take(p.len() as int) == p
}

/// Whether every character is an ASCII digit.
pub open spec fn all_digits(s: Seq<char>) -> bool {
    forall|i: int| 0 <= i < s.len() ==> '0' <= #[trigger] s[i] <= '9'
}

/// The number that ASCII digits denote.
pub open spec fn digits_value(s: Seq<char>) -> int
    decreases s.len(),
{
    if s.len() == 0 {
        0
    } else {
        digits_value(s.drop_last()) * 10 + (s.last() as int - '0' as int)
    }
}

/// The number a word denotes as `u64::from_str` reads it: an optional `+`,
/// then one or more ASCII digits, of value at most `u64::MAX`.
pub open spec fn parse_u64(w: Seq<char>) -> Option<u64> {
    let d = if w.len() > 0 && w[0] == '+' {
        w.drop_first()
    } else {
        w
    };
    if d.len() == 0 || !all_digits(d) || digits_value(d) > u64::MAX {
        None
    } else {
        Some(digits_value(d) as u64)
    }
}

/// The number a word denotes, or 0 if it denotes none.
pub open spec fn number_or_zero(w: Seq<char>) -> u64 {
    match parse_u64(w) {
        Some(v) => v,
        None => 0,
    }
}

/// A count of kibibytes in bytes, wrapping at the width of `u64`.
pub open spec fn kib_to_bytes(kb: u64) -> u64 {
    ((kb as nat * 1024) % 0x1_0000_0000_0000_0000) as u64
}

/// The total of a `MemTotal:` line: a line that starts with `MemTotal:`
/// and whose second word is a number.
pub open spec fn line_total_kb(l: Seq<char>) -> Option<u64> {
    if starts_with(l, "MemTotal:"@) && split_words(l).len() >= 2 {
        parse_u64(split_words(l)[1])
    } else {
        None
    }
}

/// The total of the first line of the lines that has one.
pub open spec fn first_total_kb(ls: Seq<Seq<char>>) -> Option<u64>
    decreases ls.len(),
{
    if ls.len() == 0 {
        None
    } else {
        match first_total_kb(ls.drop_last()) {
            Some(v) => Some(v),
            None => line_total_kb(ls.last()),
        }
    }
}

/// The value of a field: from the last line whose first of at least two
/// words is the key, the second word as a number (0 if it is none); 0
/// without such a line.
pub open spec fn field_kb(ls: Seq<Seq<char>>, key: Seq<char>) -> u64
    decreases ls.len(),
{
    if ls.len() == 0 {
        0
    } else {
        let w = split_words(ls.last());
        if w.len() >= 2 && w[0] == key {
            number_or_zero(w[1])
        } else {
            field_kb(ls.drop_last(), key)
        }
    }
}

/// `x - y`, or 0 below 0.
pub open spec fn sat_sub(x: u64, y: u64) -> u64 {
    if x >= y {
        (x - y) as u64
    } else {
        0
    }
}

/// The busy and the total CPU time of a `cpu ` line: a line that starts
/// with `cpu ` and has at least five words, whose second to fifth words
/// are the user, nice, system and idle times (each 0 if it is no number);
/// none if the total is zero.
pub open spec fn line_cpu_times(l: Seq<char>) -> Option<(u128, u128)> {
    let w = split_words(l);
    if starts_with(l, "cpu "@) && w.len() >= 5 {
        let busy = number_or_zero(w[1]) + number_or_zero(w[2]) + number_or_zero(w[3]);
        let total = busy + number_or_zero(w[4]);
        if total > 0 {
            Some((busy as u128, total as u128))
        } else {
            None
        }
    } else {
        None
    }
}

/// The times of the first line of the lines that has them.
pub open spec fn first_cpu_times(ls: Seq<Seq<char>>) -> Option<(u128, u128)>
    decreases ls.len(),
{
    if ls.len() == 0 {
        None
    } else {
        match first_cpu_times(ls.drop_last()) {
            Some(t) => Some(t),
            None => line_cpu_times(ls.last()),
        }
    }
}

/// The texts of a list of character vectors.
pub open spec fn texts(v: Seq<Vec<char>>) -> Seq<Seq<char>> {
    v.map_values(|w: Vec<char>| w@)
}

proof fn lemma_split_lines_nonempty(s: Seq<char>)
    ensures
        split_lines(s).len() >= 1,
    decreases s.len(),
{
    if s.len() > 0 {
        lemma_split_lines_nonempty(s.drop_last());
    }
}

proof fn lemma_split_words_nonempty(s: Seq<char>)
    requires
        s.len() > 0,
        !is_unicode_whitespace(s.last()),
    ensures
        split_words(s).len() >= 1,
    decreases s.len(),
{
    if s.len() >= 2 && !is_unicode_whitespace(s[s.len() - 2]) {
        assert(s.drop_last().last() == s[s.len() - 2]);
        lemma_split_words_nonempty(s.drop_last());
    }
}

/// The lines of a text (see `split_lines`).
fn lines_of(text: &str) -> (r: Vec<Vec<char>>)
    ensures
        texts(r@) == split_lines(text@),
{
    let cs = chars_of(text);
    let mut done: Vec<Vec<char>> = Vec::new();
    let mut cur: Vec<char> = Vec::new();
    let mut i: usize = 0;
    assert(cs@.take(0) =~= Seq::<char>::empty());
    assert(texts(done@).push(cur@) =~= split_lines(cs@.take(0)));
    while i < cs.len()
        invariant
            i <= cs.len(),
            cs@ == text@,
            texts(done@).push(cur@) == split_lines(cs@.take(i as int)),
        decreases cs.len() - i,
    {
        let c = cs[i];
        assert(cs@.take(i + 1).drop_last() =~= cs@.take(i as int));
        proof {
            lemma_split_lines_nonempty(cs@.take(i as int));
        }
        if c == '\n' {
            let ghost before = texts(done@);
            let line = cur;
            done.push(line);
            cur = Vec::new();
            assert(texts(done@) =~= before.push(line@));
        } else {
            cur.push(c);
        }
        i += 1;
        assert(texts(done@).push(cur@) =~= split_lines(cs@.take(i as int)));
    }
    assert(cs@.take(i as int) =~= cs@);
    let ghost before = texts(done@);
    let last = cur;
    done.push(last);
    assert(texts(done@) =~= before.push(last@));
    done
}

/// The words of a line (see `split_words`).
fn words_of(line: &Vec<char>) -> (r: Vec<Vec<char>>)
    ensures
        texts(r@) == split_words(line@),
{
    let mut words: Vec<Vec<char>> = Vec::new();
    let mut i: usize = 0;
    assert(line@.take(0) =~= Seq::<char>::empty());
    assert(texts(words@) =~= Seq::<Seq<char>>::empty());
    while i < line.len()
        invariant
            i <= line.len(),
            texts(words@) == split_words(line@.take(i as int)),
        decreases line.len() - i,
    {
        let c = line[i];
        let ghost t = line@.take(i + 1);
        assert(t.drop_last() =~= line@.take(i as int));
        assert(t.last() == c);
        let ghost before = texts(words@);
        if is_whitespace_char(c) {
        } else if i >= 1 && !is_whitespace_char(line[i - 1]) {
            assert(t[t.len() - 2] == line@[i - 1]);
            proof {
                lemma_split_words_nonempty(line@.take(i as int));
                assert(line@.take(i as int).last() == line@[i - 1]);
            }
            let mut last = words.pop().unwrap();
            last.push(c);
            words.push(last);
            assert(texts(words@) =~= before.update(before.len() - 1, before.last().push(c)));
        } else {
            proof {
                if i >= 1 {
                    assert(t[t.len() - 2] == line@[i - 1]);
                }
            }
            let w = vec![c];
            assert(w@ =~= seq![c]);
            words.push(w);
            assert(texts(words@) =~= before.push(seq![c]));
        }
        i += 1;
    }
    assert(line@.take(i as int) =~= line@);
    words
}

proof fn lemma_digits_value_prefix(s: Seq<char>, k: int)
    requires
        all_digits(s),
        0 <= k <= s.len(),
    ensures
        0 <= digits_value(s.take(k)) <= digits_value(s),
    decreases s.len(),
{
    if s.len() > 0 {
        assert(all_digits(s.drop_last()));
        if k < s.len() {
            assert(s.drop_last().take(k) =~= s.take(k));
            lemma_digits_value_prefix(s.drop_last(), k);
        } else {
            assert(s.take(k) =~= s);
            lemma_digits_value_prefix(s.drop_last(), k - 1);
            assert(s.drop_last().take(k - 1) =~= s.drop_last());
        }
    } else {
        assert(s.take(k) =~= s);
    }
}

/// A word as a number, as `u64::from_str` reads it (see `parse_u64`).
fn parse_word(w: &Vec<char>) -> (r: Option<u64>)
    ensures
        r == parse_u64(w@),
{
    let start: usize = if w.len() > 0 && w[0] == '+' {
        1
    } else {
        0
    };
    let ghost d = if w@.len() > 0 && w@[0] == '+' {
        w@.drop_first()
    } else {
        w@
    };
    assert(d =~= w@.subrange(start as int, w@.len() as int));
    if start == w.len() {
        return None;
    }
    let mut v: u64 = 0;
    let mut i: usize = start;
    assert(d.take(0) =~= Seq::<char>::empty());
    while i < w.len()
        invariant
            start <= i <= w.len(),
            d == w@.subrange(start as int, w@.len() as int),
            d == (if w@.len() > 0 && w@[0] == '+' {
                w@.drop_first()
            } else {
                w@
            }),
            all_digits(d.take(i - start)),
            v == digits_value(d.take(i - start)),
        decreases w.len() - i,
    {
        let c = w[i];
        assert(d[i - start] == c);
        if !('0' <= c && c <= '9') {
            assert(!all_digits(d));
            return None;
        }
        let dv: u64 = ((c as u32) - ('0' as u32)) as u64;
        let ghost t = d.take(i + 1 - start);
        assert(t.drop_last() =~= d.take(i - start));
        assert(t.last() == c);
        assert(digits_value(t) == v * 10 + dv);
        assert(all_digits(t));
        if v > (u64::MAX - dv) / 10 {
            proof {
                if all_digits(d) {
                    lemma_digits_value_prefix(d, i + 1 - start);
                }
            }
            return None;
        }
        v = v * 10 + dv;
        i += 1;
    }
    assert(d.take(i - start) =~= d);
    Some(v)
}

/// Whether a line starts with a key.
fn line_starts_with(line: &Vec<char>, key: &str) -> (b: bool)
    ensures
        b == starts_with(line@, key@),
{
    let k = chars_of(key);
    if k.len() > line.len() {
        return false;
    }
    let mut i: usize = 0;
    while i < k.len()
        invariant
            i <= k.len() <= line.len(),
            k@ == key@,
            forall|j: int| 0 <= j < i ==> line@[j] == k@[j],
        decreases k.len() - i,
    {
        if line[i] != k[i] {
            assert(line@.take(k.len() as int)[i as int] != key@[i as int]);
            return false;
        }
        i += 1;
    }
    assert(line@.take(k.len() as int) =~= key@);
    true
}

/// Whether two character lists are equal.
fn same_chars(a: &Vec<char>, b: &Vec<char>) -> (r: bool)
    ensures
        r == (a@ == b@),
{
    if a.len() != b.len() {
        return false;
    }
    let mut i: usize = 0;
    while i < a.len()
        invariant
            i <= a.len() == b.len(),
            forall|j: int| 0 <= j < i ==> a@[j] == b@[j],
        decreases a.len() - i,
    {
        if a[i] != b[i] {
            return false;
        }
        i += 1;
    }
    assert(a@ =~= b@);
    true
}

/// The total memory that `/proc/meminfo` text reports, in bytes: from the
/// first `MemTotal:` line with a number (see `first_total_kb`), times 1024.
pub fn total_memory_bytes(meminfo: &str) -> (r: Option<u64>)
    ensures
        r == match first_total_kb(split_lines(meminfo@)) {
            Some(kb) => Some(kib_to_bytes(kb)),
            None => None,
        },
{
    let lines = lines_of(meminfo);
    let ghost ls = texts(lines@);
    let mut found: Option<u64> = None;
    let mut i: usize = 0;
    assert(ls.take(0) =~= Seq::<Seq<char>>::empty());
    while i < lines.len()
        invariant
            i <= lines.len(),
            ls == texts(lines@),
            found == first_total_kb(ls.take(i as int)),
        decreases lines.len() - i,
    {
        assert(ls.take(i + 1).drop_last() =~= ls.take(i as int));
        assert(ls.take(i + 1).last() == lines@[i as int]@);
        if found.is_none() {
            let line = &lines[i];
            if line_starts_with(line, "MemTotal:") {
                let words = words_of(line);
                if words.len() >= 2 {
                    assert(texts(words@)[1] == words@[1]@);
                    found = parse_word(&words[1]);
                }
            }
        }
        i += 1;
    }
    assert(ls.take(i as int) =~= ls);
    match found {
        Some(kb) => {
            let b = kb.wrapping_mul(1024);
            assert(b == kib_to_bytes(kb));
            Some(b)
        },
        None => None,
    }
}

/// The value of a field of `/proc/meminfo` text, in kibibytes (see `field_kb`).
fn field_value(lines: &Vec<Vec<char>>, key: &str) -> (r: u64)
    ensures
        r == field_kb(texts(lines@), key@),
{
    let ghost ls = texts(lines@);
    let k = chars_of(key);
    let mut v: u64 = 0;
    let mut i: usize = 0;
    assert(ls.take(0) =~= Seq::<Seq<char>>::empty());
    while i < lines.len()
        invariant
            i <= lines.len(),
            ls == texts(lines@),
            k@ == key@,
            v == field_kb(ls.take(i as int), key@),
        decreases lines.len() - i,
    {
        assert(ls.take(i + 1).drop_last() =~= ls.take(i as int));
        assert(ls.take(i + 1).last() == lines@[i as int]@);
        let words = words_of(&lines[i]);
        if words.len() >= 2 {
            assert(texts(words@)[0] == words@[0]@);
            assert(texts(words@)[1] == words@[1]@);
            if same_chars(&words[0], &k) {
                v = match parse_word(&words[1]) {
                    Some(n) => n,
                    None => 0,
                };
            }
        }
        i += 1;
    }
    assert(ls.take(i as int) =~= ls);
    v
}

/// The memory in use that `/proc/meminfo` text reports, in bytes: the
/// total (given in bytes, counted in whole kibibytes) less the `MemFree:`,
/// `Buffers:` and `Cached:` fields (see `field_kb`), each subtraction
/// stopping at 0, times 1024.
pub fn used_memory_bytes(meminfo: &str, total_bytes: u64) -> (r: u64)
    ensures
        ({
            let ls = split_lines(meminfo@);
            r == kib_to_bytes(
                sat_sub(
                    sat_sub(sat_sub(total_bytes / 1024, field_kb(ls, "MemFree:"@)), field_kb(ls, "Buffers:"@)),
                    field_kb(ls, "Cached:"@),
                ),
            )
        }),
{
    let lines = lines_of(meminfo);
    let free = field_value(&lines, "MemFree:");
    let buffers = field_value(&lines, "Buffers:");
    let cached = field_value(&lines, "Cached:");
    let used = (total_bytes / 1024).saturating_sub(free).saturating_sub(buffers).saturating_sub(cached);
    let b = used.wrapping_mul(1024);
    assert(b == kib_to_bytes(used));
    b
}

/// The busy and total CPU time that `/proc/stat` text reports: from the
/// first `cpu ` line with a nonzero total (see `line_cpu_times`), the sums
/// taken exactly.
pub fn cpu_times(stat: &str) -> (r: Option<(u128, u128)>)
    ensures
        r == first_cpu_times(split_lines(stat@)),
{
    let lines = lines_of(stat);
    let ghost ls = texts(lines@);
    let mut found: Option<(u128, u128)> = None;
    let mut i: usize = 0;
    assert(ls.take(0) =~= Seq::<Seq<char>>::empty());
    while i < lines.len()
        invariant
            i <= lines.len(),
            ls == texts(lines@),
            found == first_cpu_times(ls.take(i as int)),
        decreases lines.len() - i,
    {
        assert(ls.take(i + 1).drop_last() =~= ls.take(i as int));
        assert(ls.take(i + 1).last() == lines@[i as int]@);
        if found.is_none() {
            let line = &lines[i];
            let words = words_of(line);
            if line_starts_with(line, "cpu ") && words.len() >= 5 {
                let ghost ws = texts(words@);
                assert(ws[1] == words@[1]@ && ws[2] == words@[2]@ && ws[3] == words@[3]@ && ws[4] == words@[4]@);
                let user: u128 = match parse_word(&words[1]) {
                    Some(n) => n as u128,
                    None => 0,
                };
                let nice: u128 = match parse_word(&words[2]) {
                    Some(n) => n as u128,
                    None => 0,
                };
                let system: u128 = match parse_word(&words[3]) {
                    Some(n) => n as u128,
                    None => 0,
                };
                let idle: u128 = match parse_word(&words[4]) {
                    Some(n) => n as u128,
                    None => 0,
                };
                let busy = user + nice + system;
                let total = busy + idle;
                if total > 0 {
                    found = Some((busy, total));
                }
            }
        }
        i += 1;
    }
    assert(ls.take(i as int) =~= ls);
    found
}

} // verus!
