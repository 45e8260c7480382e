//! Naming rules of the handler macros: the type name made from a handler
//! function's name, and which message types answer as responses.
use vstd::prelude::*;

verus! {

/// The characters that Unicode upper-casing makes of `c`, as std's
/// `char::to_uppercase` yields them.
pub uninterp spec fn char_upper(c: char) -> Seq<char>;

/// `char::to_uppercase`, collected: the upper-case form of `c`.
#[verifier::external_body]
fn upper_chars(c: char) -> (r: Vec<char>)
    ensures
        r@ == char_upper(c),
{
    c.to_uppercase().collect()
}

/// `String::from_iter` over a vector's characters: the string of those
/// characters, in order.
#[verifier::external_body]
fn string_from_chars(v: &Vec<char>) -> (s: String)
    ensures
        s@ == v@,
{
    v.iter().collect()
}

/// The character at `i` begins a word: it is first, or follows an underscore.
pub open spec fn begins_word(s: Seq<char>, i: int) -> bool {
    i == 0 || s[i - 1] == '_'
}

/// What the character at `i` becomes: nothing for an underscore, its upper
/// case form when it begins a word, else itself.
pub open spec fn camel_piece(s: Seq<char>, i: int) -> Seq<char> {
    if s[i] == '_' {
        Seq::empty()
    } else if begins_word(s, i) {
        char_upper(s[i])
    } else {
        seq![s[i]]
    }
}

/// The pieces of the first `n` characters of `s`, in order.
pub open spec fn camel_prefix(s: Seq<char>, n: int) -> Seq<char>
    decreases n,
{
    if n <= 0 {
        Seq::empty()
    } else {
        camel_prefix(s, n - 1) + camel_piece(s, n - 1)
    }
}

/// The type name for a snake-case function name: the underscore-separated
/// words, each with its first character upper-cased, joined.
pub fn fn_case_2_struct_case(ident: &str) -> (r: String)
    ensures
        r@ == camel_prefix(ident@, ident@.len() as int),
{
    let n = ident.unicode_len();
    let mut out: Vec<char> = Vec::new();
    let mut i: usize = 0;
    while i < n
        invariant
            n == ident@.len(),
            0 <= i <= n,
            out@ == camel_prefix(ident@, i as int),
        decreases n - i,
    {
        let c = ident.get_char(i);
        if c == '_' {
        } else if i == 0 || ident.get_char(i - 1) == '_' {
            let up = upper_chars(c);
            let mut j: usize = 0;
            let ghost before = out@;
            while j < up.len()
                invariant
                    0 <= j <= up@.len(),
                    out@ == before + up@.take(j as int),
                decreases up@.len() - j,
            {
                out.push(up[j]);
                j += 1;
                assert(out@ =~= before + up@.take(j as int));
            }
            assert(up@.take(up@.len() as int) =~= up@);
        } else {
            out.push(c);
        }
        i += 1;
        assert(out@ =~= camel_prefix(ident@, i as int));
    }
    string_from_chars(&out)
}

/// The pieces of two texts agree where their characters agree.
proof fn lemma_camel_prefix_same(s: Seq<char>, t: Seq<char>, n: int)
    requires
        0 <= n <= s.len(),
        n <= t.len(),
        forall|i: int| 0 <= i < n ==> s[i] == t[i],
    ensures
        camel_prefix(s, n) == camel_prefix(t, n),
    decreases n,
{
    if n > 0 {
        lemma_camel_prefix_same(s, t, n - 1);
        if n >= 2 {
            assert(s[n - 2] == t[n - 2]);
        }
        assert(camel_piece(s, n - 1) == camel_piece(t, n - 1));
    }
}

/// The pieces of `a`, an underscore and the first `m` characters of `b`.
proof fn lemma_camel_join_prefix(a: Seq<char>, b: Seq<char>, m: int)
    requires
        0 <= m <= b.len(),
    ensures
        camel_prefix(a + seq!['_'] + b, a.len() + 1 + m) == camel_prefix(a, a.len() as int)
            + camel_prefix(b, m),
    decreases m,
{
    let w = a + seq!['_'] + b;
    if m == 0 {
        lemma_camel_prefix_same(w, a, a.len() as int);
        assert(w[a.len() as int] == '_');
        assert(camel_prefix(w, a.len() + 1int) == camel_prefix(w, a.len() as int) + camel_piece(
            w,
            a.len() as int,
        ));
        assert(camel_prefix(w, a.len() + 1int) =~= camel_prefix(a, a.len() as int) + camel_prefix(
            b,
            0,
        ));
    } else {
        lemma_camel_join_prefix(a, b, m - 1);
        let i = a.len() + 1 + (m - 1);
        assert(w[i] == b[m - 1]);
        assert(w[i - 1] == if m - 1 == 0 { '_' } else { b[m - 2] });
        assert(camel_piece(w, i) == camel_piece(b, m - 1));
        assert(camel_prefix(w, i + 1) =~= camel_prefix(a, a.len() as int) + camel_prefix(b, m));
    }
}

/// The type name of words joined by an underscore is the type names of the
/// words, joined: `camel(a_b) == camel(a) + camel(b)`. The name of nothing
/// is empty.
pub proof fn lemma_camel_joins_words(a: Seq<char>, b: Seq<char>)
    ensures
        camel_prefix(a + seq!['_'] + b, (a + seq!['_'] + b).len() as int) == camel_prefix(
            a,
            a.len() as int,
        ) + camel_prefix(b, b.len() as int),
        camel_prefix(Seq::<char>::empty(), 0) == Seq::<char>::empty(),
{
    lemma_camel_join_prefix(a, b, b.len() as int);
}

/// A single word keeps its characters, except that its first one is
/// upper-cased.
pub proof fn lemma_camel_single_word(s: Seq<char>)
    requires
        s.len() > 0,
        forall|i: int| 0 <= i < s.len() ==> s[i] != '_',
    ensures
        camel_prefix(s, s.len() as int) == char_upper(s[0]) + s.skip(1),
{
    lemma_camel_word_prefix(s, s.len() as int);
    assert(s.subrange(1, s.len() as int) =~= s.skip(1));
}

proof fn lemma_camel_word_prefix(s: Seq<char>, n: int)
    requires
        1 <= n <= s.len(),
        forall|i: int| 0 <= i < s.len() ==> s[i] != '_',
    ensures
        camel_prefix(s, n) == char_upper(s[0]) + s.subrange(1, n),
    decreases n,
{
    if n == 1 {
        assert(camel_prefix(s, 0) == Seq::<char>::empty());
        assert(camel_prefix(s, 1) =~= char_upper(s[0]) + s.subrange(1, 1));
    } else {
        lemma_camel_word_prefix(s, n - 1);
        assert(s[n - 2] != '_');
        assert(camel_piece(s, n - 1) == seq![s[n - 1]]);
        assert(camel_prefix(s, n) =~= char_upper(s[0]) + s.subrange(1, n));
    }
}

/// `s` ends with `t`.
pub open spec fn ends_with(s: Seq<char>, t: Seq<char>) -> bool {
    s.len() >= t.len() && s.skip(s.len() - t.len()) == t
}

/// `s` ends with `t` exactly when `s` is some text followed by `t`.
pub proof fn lemma_ends_with_is_suffix(s: Seq<char>, t: Seq<char>, p: Seq<char>)
    ensures
        ends_with(p + t, t),
        ends_with(s, t) ==> s == s.take(s.len() - t.len()) + t,
        ends_with(s, t) ==> s.len() >= t.len() && forall|i: int|
            0 <= i < t.len() ==> s[s.len() - t.len() + i] == t[i],
        s.len() >= t.len() && (exists|i: int|
            0 <= i < t.len() && s[s.len() - t.len() + i] != t[i]) ==> !ends_with(s, t),
{
    assert((p + t).skip((p + t).len() - t.len()) =~= t);
    if ends_with(s, t) {
        assert(s =~= s.take(s.len() - t.len()) + t);
        assert forall|i: int| 0 <= i < t.len() implies s[s.len() - t.len() + i] == t[i] by {
            assert(s.skip(s.len() - t.len())[i] == s[s.len() - t.len() + i]);
        }
    }
}

/// Whether `s` ends with `t`.
fn has_suffix(s: &str, t: &str) -> (r: bool)
    ensures
        r == ends_with(s@, t@),
{
    let n = s.unicode_len();
    let m = t.unicode_len();
    if n < m {
        return false;
    }
    let mut i: usize = 0;
    while i < m
        invariant
            n == s@.len(),
            m == t@.len(),
            m <= n,
            0 <= i <= m,
            forall|j: int| 0 <= j < i ==> s@[n - m + j] == t@[j],
        decreases m - i,
    {
        if s.get_char(n - m + i) != t.get_char(i) {
            assert(s@.skip(n - m)[i as int] != t@[i as int]);
            return false;
        }
        i += 1;
    }
    assert(s@.skip(n - m) =~= t@);
    true
}

/// Whether a message type gets an answer-as-response implementation: when
/// its name ends with `Req` or `Resp`.
pub fn answers_as_response(struct_name: &str) -> (r: bool)
    ensures
        r == (ends_with(struct_name@, "Req"@) || ends_with(struct_name@, "Resp"@)),
{
    has_suffix(struct_name, "Req") || has_suffix(struct_name, "Resp")
}

} // verus!
