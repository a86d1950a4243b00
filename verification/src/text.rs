//! Names and rows of names: comparing, ordering and splitting text.

use vstd::prelude::*;

verus! {

/// Whether `a` comes before `b` in the order of their code points, first
/// difference first; a proper prefix comes before what it begins.
pub open spec fn text_before(a: Seq<char>, b: Seq<char>) -> bool
    decreases a.len(),
{
    if b.len() == 0 {
        false
    } else if a.len() == 0 {
        true
    } else if a[0] != b[0] {
        (a[0] as int) < (b[0] as int)
    } else {
        text_before(a.drop_first(), b.drop_first())
    }
}

/// Text order is strict: nothing comes before itself.
pub proof fn lemma_text_order_is_strict(a: Seq<char>)
    ensures
        !text_before(a, a),
    decreases a.len(),
{
    if a.len() > 0 {
        lemma_text_order_is_strict(a.drop_first());
    }
}

/// Text order is transitive.
pub proof fn lemma_text_order_is_transitive(a: Seq<char>, b: Seq<char>, c: Seq<char>)
    requires
        text_before(a, b),
        text_before(b, c),
    ensures
        text_before(a, c),
    decreases a.len(),
{
    if a.len() > 0 && a[0] == b[0] && b[0] == c[0] {
        lemma_text_order_is_transitive(a.drop_first(), b.drop_first(), c.drop_first());
    }
}

/// Text order is total: of two different texts one comes before the other.
pub proof fn lemma_text_order_is_total(a: Seq<char>, b: Seq<char>)
    ensures
        a == b || text_before(a, b) || text_before(b, a),
    decreases a.len(),
{
    if a.len() > 0 && b.len() > 0 && a[0] == b[0] {
        lemma_text_order_is_total(a.drop_first(), b.drop_first());
        if a.drop_first() == b.drop_first() {
            assert(a =~= seq![a[0]] + a.drop_first());
            assert(b =~= seq![b[0]] + b.drop_first());
            assert(a == b);
        }
    } else if a.len() == 0 && b.len() == 0 {
        assert(a =~= b);
    }
}

/// The characters of `s`, in order.
pub fn chars_of(s: &str) -> (out: Vec<char>)
    ensures
        out@ == s@,
{
    let mut out: Vec<char> = Vec::new();
    for c in it: s.chars()
        invariant
            out@ == it.seq().take(it.index()),
            it.seq() == s@,
    {
        out.push(c);
        assert(it.seq().take(it.index() + 1) =~= it.seq().take(it.index()).push(c));
    }
    assert(s@.take(s@.len() as int) =~= s@);
    out
}

/// Whether two texts are the same, character for character.
pub fn same_text(a: &str, b: &str) -> (same: bool)
    ensures
        same == (a@ == b@),
{
    let x = chars_of(a);
    let y = chars_of(b);
    if x.len() != y.len() {
        return false;
    }
    let mut i: usize = 0;
    while i < x.len()
        invariant
            i <= x.len(),
            x@ == a@,
            y@ == b@,
            x.len() == y.len(),
            forall|k: int| 0 <= k < i ==> x@[k] == y@[k],
        decreases x.len() - i,
    {
        if x[i] != y[i] {
            return false;
        }
        i += 1;
    }
    assert(a@ =~= b@);
    true
}

/// The code point of `c`.
fn code_point(c: char) -> (n: u32)
    ensures
        n as int == c as int,
{
    c as u32
}

/// Whether `a` comes before `b` in text order.
pub fn comes_before(a: &str, b: &str) -> (before: bool)
    ensures
        before == text_before(a@, b@),
{
    let x = chars_of(a);
    let y = chars_of(b);
    let mut i: usize = 0;
    assert(a@.skip(0) =~= a@);
    assert(b@.skip(0) =~= b@);
    while i < x.len() && i < y.len()
        invariant
            i <= x.len(),
            i <= y.len(),
            x@ == a@,
            y@ == b@,
            text_before(a@, b@) == text_before(a@.skip(i as int), b@.skip(i as int)),
        decreases x.len() - i,
    {
        assert(a@.skip(i as int).drop_first() =~= a@.skip(i + 1));
        assert(b@.skip(i as int).drop_first() =~= b@.skip(i + 1));
        let c: char = x[i];
        let d: char = y[i];
        if c != d {
            return code_point(c) < code_point(d);
        }
        i += 1;
    }
    i < y.len()
}

/// The characters of Unicode's `White_Space` property.
pub open spec fn white_space(c: char) -> bool {
    ||| 0x09 <= c as int <= 0x0d
    ||| c as int == 0x20
    ||| c as int == 0x85
    ||| c as int == 0xa0
    ||| c as int == 0x1680
    ||| 0x2000 <= c as int <= 0x200a
    ||| c as int == 0x2028
    ||| c as int == 0x2029
    ||| c as int == 0x202f
    ||| c as int == 0x205f
    ||| c as int == 0x3000
}

/// Whether `c` has Unicode's `White_Space` property.
pub fn is_white_space(c: char) -> (white: bool)
    ensures
        white == white_space(c),
{
    let n: u32 = code_point(c);
    (0x09 <= n && n <= 0x0d) || n == 0x20 || n == 0x85 || n == 0xa0 || n == 0x1680 || (0x2000 <= n
        && n <= 0x200a) || n == 0x2028 || n == 0x2029 || n == 0x202f || n == 0x205f || n == 0x3000
}

/// Whether a text has nothing to show: no character but white space.
pub open spec fn blank(s: Seq<char>) -> bool {
    forall|i: int| 0 <= i < s.len() ==> white_space(#[trigger] s[i])
}

/// Whether `s` is blank.
pub fn is_blank(s: &str) -> (b: bool)
    ensures
        b == blank(s@),
{
    let x = chars_of(s);
    let mut i: usize = 0;
    while i < x.len()
        invariant
            i <= x.len(),
            x@ == s@,
            forall|k: int| 0 <= k < i ==> white_space(#[trigger] s@[k]),
        decreases x.len() - i,
    {
        if !is_white_space(x[i]) {
            assert(!white_space(s@[i as int]));
            return false;
        }
        i += 1;
    }
    true
}

/// The length of the run without white space that `s` begins with.
pub open spec fn word_len(s: Seq<char>) -> nat
    decreases s.len(),
{
    if s.len() == 0 || white_space(s[0]) {
        0
    } else {
        1 + word_len(s.drop_first())
    }
}

/// The words of `s`: its longest runs without white space, left to right.
pub open spec fn words(s: Seq<char>) -> Seq<Seq<char>>
    decreases s.len(),
{
    if s.len() == 0 {
        Seq::empty()
    } else if white_space(s[0]) {
        words(s.drop_first())
    } else {
        proof {
            lemma_word_len(s);
        }
        seq![s.take(word_len(s) as int)] + words(s.skip(word_len(s) as int))
    }
}

/// The leading run is as long as it can be: it ends at white space or at the end.
pub proof fn lemma_word_len(s: Seq<char>)
    ensures
        word_len(s) <= s.len(),
        s.len() > 0 && !white_space(s[0]) ==> word_len(s) > 0,
        forall|i: int| 0 <= i < word_len(s) ==> !white_space(#[trigger] s[i]),
        word_len(s) < s.len() ==> white_space(s[word_len(s) as int]),
    decreases s.len(),
{
    if s.len() > 0 && !white_space(s[0]) {
        let t = s.drop_first();
        lemma_word_len(t);
        assert forall|i: int| 0 <= i < word_len(s) implies !white_space(#[trigger] s[i]) by {
            if i > 0 {
                assert(s[i] == t[i - 1]);
            }
        }
    }
}

/// Every word is non-empty and holds no white space.
pub proof fn lemma_words_are_solid(s: Seq<char>, i: int, k: int)
    requires
        0 <= i < words(s).len(),
    ensures
        words(s)[i].len() > 0,
        0 <= k < words(s)[i].len() ==> !white_space(words(s)[i][k]),
    decreases s.len(),
{
    if s.len() > 0 {
        if white_space(s[0]) {
            lemma_words_are_solid(s.drop_first(), i, k);
        } else {
            lemma_word_len(s);
            if i > 0 {
                lemma_words_are_solid(s.skip(word_len(s) as int), i - 1, k);
            }
        }
    }
}

/// A text without white space is its own only word.
pub proof fn lemma_solid_text_is_one_word(s: Seq<char>)
    requires
        s.len() > 0,
        forall|i: int| 0 <= i < s.len() ==> !white_space(#[trigger] s[i]),
    ensures
        words(s) == seq![s],
{
    lemma_word_len(s);
    assert(word_len(s) == s.len());
    assert(s.take(s.len() as int) =~= s);
    assert(words(s.skip(s.len() as int)) =~= Seq::empty());
    assert(words(s) =~= seq![s]);
}

/// The views of a list of texts.
pub open spec fn texts(v: Seq<String>) -> Seq<Seq<char>> {
    v.map_values(|s: String| s@)
}

/// Split `s` into its words.
pub fn split_words(s: &str) -> (out: Vec<String>)
    ensures
        texts(out@) == words(s@),
{
    let x = chars_of(s);
    let mut out: Vec<String> = Vec::new();
    let mut i: usize = 0;
    assert(s@.skip(0) =~= s@);
    assert(texts(out@) + words(s@) =~= words(s@));
    while i < x.len()
        invariant
            i <= x.len(),
            x@ == s@,
            texts(out@) + words(s@.skip(i as int)) == words(s@),
        decreases x.len() - i,
    {
        let ghost rest = s@.skip(i as int);
        if is_white_space(x[i]) {
            assert(rest.drop_first() =~= s@.skip(i + 1));
            i += 1;
        } else {
            let start: usize = i;
            assert(rest.skip(0) =~= rest);
            while i < x.len() && !is_white_space(x[i])
                invariant
                    start <= i <= x.len(),
                    x@ == s@,
                    rest == s@.skip(start as int),
                    word_len(rest) == (i - start) + word_len(s@.skip(i as int)),
                decreases x.len() - i,
            {
                assert(s@.skip(i as int).drop_first() =~= s@.skip(i + 1));
                i += 1;
            }
            proof {
                lemma_word_len(rest);
                assert(word_len(rest) == i - start);
                assert(rest.take(i - start) =~= s@.subrange(start as int, i as int));
                assert(rest.skip(i - start) =~= s@.skip(i as int));
            }
            let ghost before = texts(out@);
            out.push(s.substring_char(start, i).to_owned());
            assert(texts(out@) =~= before.push(s@.subrange(start as int, i as int)));
            assert(texts(out@) + words(s@.skip(i as int)) =~= before + words(rest));
        }
    }
    assert(words(s@.skip(i as int)) =~= Seq::empty());
    assert(texts(out@) =~= words(s@));
    out
}

} // verus!
