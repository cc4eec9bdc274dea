use vstd::prelude::*;
use vstd::string::*;
use vstd::utf8::encode_utf8;

verus! {

/// Lexicographic order on character sequences, comparing characters by their
/// code points. This is the order of `String`'s `Ord` (UTF-8 byte order and
/// code point order agree).
pub open spec fn seq_lt(a: Seq<char>, b: Seq<char>) -> bool
    decreases a.len(),
{
    if b.len() == 0 {
        false
    } else if a.len() == 0 {
        true
    } else if a[0] != b[0] {
        (a[0] as u32) < (b[0] as u32)
    } else {
        seq_lt(a.drop_first(), b.drop_first())
    }
}

/// `seq_lt` is irreflexive.
pub proof fn lemma_seq_lt_irreflexive(a: Seq<char>)
    ensures
        !seq_lt(a, a),
    decreases a.len(),
{
    if a.len() > 0 {
        lemma_seq_lt_irreflexive(a.drop_first());
    }
}

/// `seq_lt` is transitive.
pub proof fn lemma_seq_lt_transitive(a: Seq<char>, b: Seq<char>, c: Seq<char>)
    requires
        seq_lt(a, b),
        seq_lt(b, c),
    ensures
        seq_lt(a, c),
    decreases a.len(),
{
    if a.len() > 0 && a[0] == b[0] && b[0] == c[0] {
        lemma_seq_lt_transitive(a.drop_first(), b.drop_first(), c.drop_first());
    }
}

/// Two distinct sequences are ordered one way or the other.
pub proof fn lemma_seq_lt_total(a: Seq<char>, b: Seq<char>)
    requires
        a != b,
    ensures
        seq_lt(a, b) || seq_lt(b, a),
    decreases a.len(),
{
    if a.len() == 0 {
        assert(b.len() > 0) by {
            if b.len() == 0 {
                assert(a =~= b);
            }
        }
    } else if b.len() == 0 {
    } else if a[0] == b[0] {
        if a.drop_first() == b.drop_first() {
            assert(a =~= seq![a[0]] + a.drop_first());
            assert(b =~= seq![b[0]] + b.drop_first());
        }
        lemma_seq_lt_total(a.drop_first(), b.drop_first());
    } else {
        assert((a[0] as u32) != (b[0] as u32)) by {
            vstd::utf8::char_u32_cast(a[0], a[0] as u32);
            vstd::utf8::char_u32_cast(b[0], b[0] as u32);
        }
    }
}

/// `seq_lt` is asymmetric.
pub proof fn lemma_seq_lt_asymmetric(a: Seq<char>, b: Seq<char>)
    requires
        seq_lt(a, b),
    ensures
        !seq_lt(b, a),
    decreases a.len(),
{
    if a.len() > 0 && b.len() > 0 && a[0] == b[0] {
        lemma_seq_lt_asymmetric(a.drop_first(), b.drop_first());
    }
}

proof fn lemma_seq_lt_skip_common(a: Seq<char>, b: Seq<char>, i: int)
    requires
        0 <= i <= a.len(),
        i <= b.len(),
        a.subrange(0, i) == b.subrange(0, i),
    ensures
        seq_lt(a, b) == seq_lt(a.skip(i), b.skip(i)),
    decreases i,
{
    if i > 0 {
        assert(b[0] == b.subrange(0, i)[0]);
        assert(a.drop_first().subrange(0, i - 1) =~= a.subrange(0, i).drop_first());
        assert(b.drop_first().subrange(0, i - 1) =~= b.subrange(0, i).drop_first());
        lemma_seq_lt_skip_common(a.drop_first(), b.drop_first(), i - 1);
        assert(a.drop_first().skip(i - 1) =~= a.skip(i));
        assert(b.drop_first().skip(i - 1) =~= b.skip(i));
    } else {
        assert(a.skip(0) =~= a);
        assert(b.skip(0) =~= b);
    }
}

/// Whether `a` orders strictly before `b`, character by character.
pub fn str_lt(a: &str, b: &str) -> (res: bool)
    ensures
        res == seq_lt(a@, b@),
{
    let la = a.unicode_len();
    let lb = b.unicode_len();
    let mut i: usize = 0;
    while i < la && i < lb
        invariant
            la == a@.len(),
            lb == b@.len(),
            i <= la,
            i <= lb,
            a@.subrange(0, i as int) == b@.subrange(0, i as int),
        decreases la - i,
    {
        let ca = a.get_char(i);
        let cb = b.get_char(i);
        if ca != cb {
            proof {
                lemma_seq_lt_skip_common(a@, b@, i as int);
            }
            return (ca as u32) < (cb as u32);
        }
        i = i + 1;
    }
    proof {
        lemma_seq_lt_skip_common(a@, b@, i as int);
    }
    i == la && i < lb
}

/// The byte position in `s` of the character at index `char_idx`, or the byte
/// length of `s` when there is no such character.
pub fn char_to_byte(s: &str, char_idx: usize) -> (b: usize)
    ensures
        b == encode_utf8(s@.take(if char_idx < s@.len() { char_idx as int } else { s@.len() as int })).len() as usize,
{
    let n = s.unicode_len();
    if char_idx < n {
        let prefix = s.substring_char(0, char_idx);
        prefix.len()
    } else {
        assert(s@.take(s@.len() as int) =~= s@);
        s.len()
    }
}

/// Whether a character has the Unicode `White_Space` property, which std's
/// `char::is_whitespace` and `str::trim` go by: tab through carriage return,
/// space, next line, no-break space, ogham space mark, the spaces from en quad
/// to hair space, line and paragraph separators, narrow no-break space, medium
/// mathematical space and ideographic space.
pub open spec fn is_white_space(c: char) -> bool {
    let u = c as u32;
    ||| 0x09 <= u <= 0x0D
    ||| u == 0x20
    ||| u == 0x85
    ||| u == 0xA0
    ||| u == 0x1680
    ||| 0x2000 <= u <= 0x200A
    ||| u == 0x2028
    ||| u == 0x2029
    ||| u == 0x202F
    ||| u == 0x205F
    ||| u == 0x3000
}

/// `r` is `s` without its leading and trailing white space.
pub open spec fn is_trim_of(r: Seq<char>, s: Seq<char>) -> bool {
    exists|i: int, j: int|
        #![trigger s.subrange(i, j)]
        0 <= i <= j <= s.len() && r == s.subrange(i, j) && (forall|k: int|
            0 <= k < i ==> is_white_space(#[trigger] s[k])) && (forall|k: int|
            j <= k < s.len() ==> is_white_space(#[trigger] s[k])) && (i < j ==> !is_white_space(s[i])
            && !is_white_space(s[j - 1]))
}

/// std's `str::trim`: the documentation promises the slice of `s` between its
/// leading and its trailing white space (`White_Space` in Unicode's sense).
#[verifier::external_body]
pub fn trim(s: &str) -> (r: &str)
    ensures
        is_trim_of(r@, s@),
{
    s.trim()
}

/// A text has exactly one trimmed form.
pub proof fn lemma_trim_unique(r1: Seq<char>, r2: Seq<char>, s: Seq<char>)
    requires
        is_trim_of(r1, s),
        is_trim_of(r2, s),
    ensures
        r1 == r2,
{
    let (i1, j1) = choose|i: int, j: int|
        #![trigger s.subrange(i, j)]
        0 <= i <= j <= s.len() && r1 == s.subrange(i, j) && (forall|k: int|
            0 <= k < i ==> is_white_space(#[trigger] s[k])) && (forall|k: int|
            j <= k < s.len() ==> is_white_space(#[trigger] s[k])) && (i < j ==> !is_white_space(s[i])
            && !is_white_space(s[j - 1]));
    let (i2, j2) = choose|i: int, j: int|
        #![trigger s.subrange(i, j)]
        0 <= i <= j <= s.len() && r2 == s.subrange(i, j) && (forall|k: int|
            0 <= k < i ==> is_white_space(#[trigger] s[k])) && (forall|k: int|
            j <= k < s.len() ==> is_white_space(#[trigger] s[k])) && (i < j ==> !is_white_space(s[i])
            && !is_white_space(s[j - 1]));
    // Each trimmed form starts at the first character that is not white
    // space and ends after the last one, or is empty when there is none.
    if i1 < j1 && i2 < j2 {
        if i1 < i2 {
            assert(is_white_space(s[i1]));
        }
        if i2 < i1 {
            assert(is_white_space(s[i2]));
        }
        if j1 < j2 {
            assert(is_white_space(s[j2 - 1]));
        }
        if j2 < j1 {
            assert(is_white_space(s[j1 - 1]));
        }
    }
    assert(r1 =~= r2);
}

/// std's `String::insert`: puts `c` at byte position `idx`, which must be the
/// start of a character (or the end). In characters, that is an insertion at
/// the index of the character that starts there.
#[verifier::external_body]
pub fn string_insert(s: &mut String, idx: usize, c: char)
    requires
        exists|k: int| 0 <= k <= old(s)@.len() && idx == (#[trigger] encode_utf8(old(s)@.take(k))).len() as usize,
    ensures
        forall|k: int|
            0 <= k <= old(s)@.len() && idx == (#[trigger] encode_utf8(old(s)@.take(k))).len() as usize
                ==> final(s)@ == old(s)@.insert(k, c),
{
    s.insert(idx, c)
}

/// std's `String::remove`: takes out the character that starts at byte
/// position `idx` and hands it back.
#[verifier::external_body]
pub fn string_remove(s: &mut String, idx: usize) -> (c: char)
    requires
        exists|k: int| 0 <= k < old(s)@.len() && idx == (#[trigger] encode_utf8(old(s)@.take(k))).len() as usize,
    ensures
        forall|k: int|
            0 <= k < old(s)@.len() && idx == (#[trigger] encode_utf8(old(s)@.take(k))).len() as usize
                ==> final(s)@ == old(s)@.remove(k) && c == old(s)@[k],
{
    s.remove(idx)
}

} // verus!
