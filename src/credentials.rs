//! The credential store: `KEY=VALUE` lines of a flat text file.
//!
//! The file itself is read and written by the caller; here the store's
//! contents are looked up, a typed-in secret is accepted or refused, and the
//! bytes to append for a new entry are formed.
use vstd::prelude::*;
use crate::text::{append_bytes, copy_range, is_space, lemma_trim_idempotent, trim, trim_bytes};

verus! {

/// The number of bytes of `s` before its first line break.
pub open spec fn line_len(s: Seq<u8>) -> nat
    decreases s.len(),
{
    if s.len() == 0 || s[0] == 10u8 {
        0
    } else {
        1 + line_len(s.drop_first())
    }
}

/// `p` is a prefix of `s`.
pub open spec fn has_prefix(s: Seq<u8>, p: Seq<u8>) -> bool {
    p.len() <= s.len() && s.subrange(0, p.len() as int) == p
}

/// What a line that holds `key` starts with: `key=`.
pub open spec fn key_pattern(key: Seq<u8>) -> Seq<u8> {
    key + seq![61u8]
}

/// The trimmed value of the first line of `s` that starts with `pat`, or
/// the empty sequence where no line does.
pub open spec fn value_in(s: Seq<u8>, pat: Seq<u8>) -> Seq<u8>
    decreases s.len(),
{
    if s.len() == 0 {
        Seq::empty()
    } else {
        let n = line_len(s);
        let line = s.subrange(0, n as int);
        if has_prefix(line, pat) {
            trim(line.subrange(pat.len() as int, n as int))
        } else if n >= s.len() {
            Seq::empty()
        } else {
            value_in(s.subrange(n + 1 as int, s.len() as int), pat)
        }
    }
}

/// The value stored under `key` in `content`: the trimmed text after `key=`
/// on the first line that starts so. It is empty where no line holds the key
/// and where that line's value is blank, which both mean "absent".
pub open spec fn env_value(content: Seq<u8>, key: Seq<u8>) -> Seq<u8> {
    value_in(content, key_pattern(key))
}

proof fn lemma_value_in_trimmed(s: Seq<u8>, pat: Seq<u8>)
    ensures
        trim(value_in(s, pat)) == value_in(s, pat),
    decreases s.len(),
{
    if s.len() > 0 {
        let n = line_len(s);
        let line = s.subrange(0, n as int);
        if has_prefix(line, pat) {
            lemma_trim_idempotent(line.subrange(pat.len() as int, n as int));
        } else if n < s.len() {
            lemma_value_in_trimmed(s.subrange(n + 1 as int, s.len() as int), pat);
        } else {
            assert(trim(Seq::<u8>::empty()) =~= Seq::<u8>::empty());
        }
    } else {
        assert(trim(Seq::<u8>::empty()) =~= Seq::<u8>::empty());
    }
}

/// What the store holds under a key is either nothing or a trimmed,
/// non-blank secret: it neither starts nor ends with a space character.
pub proof fn lemma_stored_value_is_trimmed(content: Seq<u8>, key: Seq<u8>)
    ensures
        trim(env_value(content, key)) == env_value(content, key),
        env_value(content, key).len() == 0 || (!is_space(env_value(content, key)[0])
            && !is_space(env_value(content, key).last())),
{
    lemma_value_in_trimmed(content, key_pattern(key));
    lemma_trim_idempotent(env_value(content, key));
}

proof fn lemma_line_len_bound(s: Seq<u8>)
    ensures
        line_len(s) <= s.len(),
        line_len(s) < s.len() ==> s[line_len(s) as int] == 10u8,
        forall|j: int| 0 <= j < line_len(s) ==> s[j] != 10u8,
    decreases s.len(),
{
    if s.len() > 0 && s[0] != 10u8 {
        lemma_line_len_bound(s.drop_first());
        assert forall|j: int| 0 <= j < line_len(s) implies s[j] != 10u8 by {
            if j > 0 {
                assert(s[j] == s.drop_first()[j - 1]);
            }
        }
    }
}

proof fn lemma_line_len_step(s: Seq<u8>, i: int)
    requires
        0 <= i < s.len(),
        s[i] != 10u8,
    ensures
        line_len(s.subrange(i, s.len() as int)) == 1 + line_len(s.subrange(i + 1, s.len() as int)),
{
    assert(s.subrange(i, s.len() as int).drop_first() =~= s.subrange(i + 1, s.len() as int));
}

fn line_starts_with(s: &[u8], start: usize, end: usize, pat: &[u8]) -> (r: bool)
    requires
        start <= end <= s@.len(),
    ensures
        r == has_prefix(s@.subrange(start as int, end as int), pat@),
{
    if pat.len() > end - start {
        return false;
    }
    let mut k: usize = 0;
    while k < pat.len()
        invariant
            start <= end <= s@.len(),
            pat@.len() <= end - start,
            k <= pat@.len(),
            forall|j: int| 0 <= j < k ==> s@[start + j] == pat@[j],
        decreases pat@.len() - k,
    {
        if s[start + k] != pat[k] {
            assert(s@.subrange(start as int, end as int).subrange(0, pat@.len() as int)[k as int]
                != pat@[k as int]);
            return false;
        }
        k = k + 1;
    }
    assert(s@.subrange(start as int, end as int).subrange(0, pat@.len() as int) =~= pat@);
    true
}

/// The value stored under `key` in `content`, trimmed; empty where the key
/// is absent or its value blank.
pub fn get_env_value(content: &[u8], key: &[u8]) -> (r: Vec<u8>)
    requires
        key@.len() < usize::MAX,
    ensures
        r@ == env_value(content@, key@),
{
    let mut pattern: Vec<u8> = Vec::new();
    append_bytes(&mut pattern, key);
    pattern.push(61u8);
    assert(pattern@ =~= key_pattern(key@));
    let n: usize = content.len();
    let mut start: usize = 0;
    assert(content@.subrange(0, n as int) =~= content@);
    while start < n
        invariant
            n == content@.len(),
            start <= n,
            pattern@ == key_pattern(key@),
            env_value(content@, key@) == value_in(
                content@.subrange(start as int, n as int),
                pattern@,
            ),
        decreases n - start,
    {
        let ghost rest = content@.subrange(start as int, n as int);
        let mut end: usize = start;
        while end < n && content[end] != 10u8
            invariant
                n == content@.len(),
                start <= end <= n,
                line_len(rest) == (end - start) + line_len(
                    content@.subrange(end as int, n as int),
                ),
            decreases n - end,
        {
            proof {
                lemma_line_len_step(content@, end as int);
            }
            end = end + 1;
        }
        assert(line_len(rest) == end - start);
        assert(rest.subrange(0, (end - start) as int) =~= content@.subrange(
            start as int,
            end as int,
        ));
        if line_starts_with(content, start, end, pattern.as_slice()) {
            let value = copy_range(content, start + pattern.len(), end);
            assert(value@ =~= content@.subrange(start as int, end as int).subrange(
                pattern@.len() as int,
                (end - start) as int,
            ));
            return trim_bytes(value.as_slice());
        }
        if end >= n {
            return Vec::new();
        }
        assert(rest.subrange((end - start) + 1, rest.len() as int) =~= content@.subrange(
            end + 1,
            n as int,
        ));
        start = end + 1;
    }
    Vec::new()
}

/// The bytes that end a file's last line where it lacks a line break.
pub open spec fn line_separator(content: Seq<u8>) -> Seq<u8> {
    if content.len() > 0 && content.last() != 10u8 {
        seq![10u8]
    } else {
        Seq::empty()
    }
}

/// What is appended to a credential file with `content` to store `value`
/// under `key`: a new line `key=value`, after a line break where the file's
/// last line lacks one. Existing lines are never rewritten.
pub open spec fn entry(content: Seq<u8>, key: Seq<u8>, value: Seq<u8>) -> Seq<u8> {
    line_separator(content) + key_pattern(key) + value + seq![10u8]
}

/// A typed-in secret, trimmed; `None` where nothing but spaces was typed,
/// which asks for another try.
pub fn accept_secret(input: &[u8]) -> (r: Option<Vec<u8>>)
    ensures
        trim(input@).len() == 0 <==> r is None,
        r matches Some(v) ==> v@ == trim(input@),
{
    let value = trim_bytes(input);
    if value.len() == 0 {
        None
    } else {
        Some(value)
    }
}

/// The bytes to append to a credential file holding `content` so that it
/// stores `value` under `key`.
pub fn credential_entry(content: &[u8], key: &[u8], value: &[u8]) -> (r: Vec<u8>)
    requires
        key@.len() + value@.len() <= usize::MAX - 3,
    ensures
        r@ == entry(content@, key@, value@),
{
    let mut r: Vec<u8> = Vec::new();
    if content.len() > 0 && content[content.len() - 1] != 10u8 {
        r.push(10u8);
    }
    append_bytes(&mut r, key);
    r.push(61u8);
    append_bytes(&mut r, value);
    r.push(10u8);
    assert(r@ =~= entry(content@, key@, value@));
    r
}

/// Some line of `s` starts with `pat`.
pub open spec fn key_line_in(s: Seq<u8>, pat: Seq<u8>) -> bool
    decreases s.len(),
{
    if s.len() == 0 {
        false
    } else {
        let n = line_len(s);
        has_prefix(s.subrange(0, n as int), pat) || (n < s.len() && key_line_in(
            s.subrange(n + 1 as int, s.len() as int),
            pat,
        ))
    }
}

/// No byte of `s` is a line break.
pub open spec fn single_line(s: Seq<u8>) -> bool {
    forall|i: int| 0 <= i < s.len() ==> s[i] != 10u8
}

proof fn lemma_line_len_concat(a: Seq<u8>, b: Seq<u8>)
    ensures
        line_len(a + b) == if line_len(a) < a.len() {
            line_len(a)
        } else {
            a.len() + line_len(b)
        },
    decreases a.len(),
{
    lemma_line_len_bound(a);
    if a.len() == 0 {
        assert(a + b =~= b);
    } else if a[0] != 10u8 {
        assert((a + b).drop_first() =~= a.drop_first() + b);
        lemma_line_len_concat(a.drop_first(), b);
    }
}

proof fn lemma_single_line_len(s: Seq<u8>)
    requires
        single_line(s),
    ensures
        line_len(s) == s.len(),
{
    lemma_line_len_bound(s);
}

proof fn lemma_lookup_skips_lines(c: Seq<u8>, r: Seq<u8>, pat: Seq<u8>)
    requires
        !key_line_in(c, pat),
    ensures
        value_in(c + line_separator(c) + r, pat) == value_in(r, pat),
    decreases c.len(),
{
    let whole = c + line_separator(c) + r;
    if c.len() == 0 {
        assert(whole =~= r);
    } else {
        let n = line_len(c);
        lemma_line_len_bound(c);
        lemma_line_len_concat(c, line_separator(c) + r);
        assert(whole =~= c + (line_separator(c) + r));
        if n < c.len() {
            let tail = c.subrange(n + 1 as int, c.len() as int);
            assert(whole.subrange(0, n as int) =~= c.subrange(0, n as int));
            if tail.len() == 0 {
                assert(c.last() == c[n as int]);
            } else {
                assert(tail.last() == c.last());
            }
            assert(line_separator(tail) == line_separator(c));
            assert(whole.subrange(n + 1 as int, whole.len() as int) =~= tail + line_separator(
                tail,
            ) + r);
            lemma_lookup_skips_lines(tail, r, pat);
        } else {
            assert(c.last() != 10u8);
            assert(line_len(seq![10u8] + r) == 0);
            assert(whole.subrange(0, n as int) =~= c.subrange(0, n as int));
            assert(whole.subrange(n + 1 as int, whole.len() as int) =~= r);
        }
    }
}

/// A secret stored under a key that no line of the file holds yet is what a
/// later lookup of that key finds. (A line that holds the key with a blank
/// value is never rewritten, and keeps answering "absent".)
pub proof fn lemma_stored_entry_is_found(content: Seq<u8>, key: Seq<u8>, value: Seq<u8>)
    requires
        !key_line_in(content, key_pattern(key)),
        single_line(key),
        single_line(value),
        trim(value) == value,
    ensures
        env_value(content + entry(content, key, value), key) == value,
{
    let pat = key_pattern(key);
    let r = pat + value + seq![10u8];
    assert(content + entry(content, key, value) =~= content + line_separator(content) + r);
    lemma_lookup_skips_lines(content, r, pat);
    assert(single_line(pat + value));
    lemma_single_line_len(pat + value);
    lemma_line_len_concat(pat + value, seq![10u8]);
    let n = line_len(r);
    assert(n == pat.len() + value.len());
    assert(r.subrange(0, n as int) =~= pat + value);
    assert((pat + value).subrange(0, pat.len() as int) =~= pat);
    assert((pat + value).subrange(pat.len() as int, n as int) =~= value);
}

} // verus!
