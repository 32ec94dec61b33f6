use vstd::prelude::*;

verus! {

/// Appends one character to a string.
///
/// Trusted: calls `String::push`, which the standard library documents as
/// appending the given `char` to the end of the string.
#[verifier::external_body]
pub(crate) fn push_char(s: &mut String, c: char)
    ensures
        final(s)@ == old(s)@.push(c),
{
    s.push(c);
}

/// `c` is an upper-case ASCII letter.
pub open spec fn is_ascii_upper(c: char) -> bool {
    'A' <= c && c <= 'Z'
}

/// `c` is a lower-case ASCII letter.
pub open spec fn is_ascii_lower(c: char) -> bool {
    'a' <= c && c <= 'z'
}

/// What a character of a champion name contributes to its normalised form:
/// lower-case letters and digits stay, upper-case ASCII letters become lower
/// case, anything else (spaces, apostrophes, dots, ...) is dropped.
pub open spec fn normalized_char(c: char) -> Seq<char> {
    if is_ascii_lower(c) || ('0' <= c && c <= '9') {
        seq![c]
    } else if is_ascii_upper(c) {
        seq![((c as u32) + 32) as char]
    } else {
        Seq::empty()
    }
}

/// The normalised form of a champion name, so that `"Kai'Sa"`, `"kaisa"` and
/// `"KaiSa"` all name the same champion.
pub open spec fn normalize(s: Seq<char>) -> Seq<char>
    decreases s.len(),
{
    if s.len() == 0 {
        Seq::empty()
    } else {
        normalize(s.drop_last()) + normalized_char(s.last())
    }
}

/// Normalising a concatenation normalises each part.
pub proof fn lemma_normalize_append(a: Seq<char>, b: Seq<char>)
    ensures
        normalize(a + b) == normalize(a) + normalize(b),
    decreases b.len(),
{
    if b.len() == 0 {
        assert(a + b =~= a);
        assert(normalize(a) + normalize(b) =~= normalize(a));
    } else {
        lemma_normalize_append(a, b.drop_last());
        assert((a + b).drop_last() =~= a + b.drop_last());
        assert((a + b).last() == b.last());
        assert(normalize(a) + normalize(b) =~= normalize(a) + normalize(b.drop_last())
            + normalized_char(b.last()));
    }
}

/// A normalised name is its own normal form: normalising twice changes
/// nothing, so names can be compared after normalising either side.
pub proof fn lemma_normalize_idempotent(s: Seq<char>)
    ensures
        normalize(normalize(s)) == normalize(s),
    decreases s.len(),
{
    if s.len() > 0 {
        lemma_normalize_idempotent(s.drop_last());
        let c = s.last();
        let n = normalized_char(c);
        lemma_normalize_append(normalize(s.drop_last()), n);
        if n.len() == 1 {
            let d = n[0];
            assert(n.drop_last() =~= Seq::<char>::empty());
            assert(normalize(n.drop_last()) =~= Seq::<char>::empty());
            assert(normalized_char(d) =~= n);
            assert(normalize(n) =~= n);
        } else {
            assert(normalize(n) =~= n);
        }
    }
}

/// Normalising one character: an ASCII lower-case letter or digit is kept,
/// an ASCII upper-case letter becomes the same letter in lower case (the
/// character 32 places further), and anything else is dropped.
pub proof fn lemma_normalize_char(c: char)
    ensures
        ('a' <= c && c <= 'z') || ('0' <= c && c <= '9') ==> normalize(seq![c]) == seq![c],
        'A' <= c && c <= 'Z' ==> normalize(seq![c]).len() == 1 && normalize(seq![c])[0] as u32
            == c as u32 + 32 && 'a' <= normalize(seq![c])[0] && normalize(seq![c])[0] <= 'z',
        !(('a' <= c && c <= 'z') || ('0' <= c && c <= '9') || ('A' <= c && c <= 'Z'))
            ==> normalize(seq![c]).len() == 0,
{
    let s = seq![c];
    reveal_with_fuel(normalize, 2);
    assert(s.drop_last() =~= Seq::<char>::empty());
    assert(s.last() == c);
    assert(normalize(s) =~= normalized_char(c));
    if 'A' <= c && c <= 'Z' {
        let d = ((c as u32) + 32) as char;
        assert(d as u32 == c as u32 + 32);
    }
}

/// `a` and `b` are the same text except that letters may differ in ASCII
/// case.
pub open spec fn same_ignoring_ascii_case(a: Seq<char>, b: Seq<char>) -> bool {
    &&& a.len() == b.len()
    &&& forall|i: int|
        0 <= i < a.len() ==> {
            ||| #[trigger] a[i] == b[i]
            ||| 'A' <= a[i] && a[i] <= 'Z' && b[i] as u32 == a[i] as u32 + 32
            ||| 'A' <= b[i] && b[i] <= 'Z' && a[i] as u32 == b[i] as u32 + 32
        }
}

/// Normalisation ignores ASCII case: two names that differ only in the case
/// of their letters have the same normal form.
pub proof fn lemma_normalize_ignores_case(a: Seq<char>, b: Seq<char>)
    requires
        same_ignoring_ascii_case(a, b),
    ensures
        normalize(a) == normalize(b),
    decreases a.len(),
{
    if a.len() > 0 {
        let n = (a.len() - 1) as int;
        assert(same_ignoring_ascii_case(a.drop_last(), b.drop_last())) by {
            assert forall|i: int| 0 <= i < a.drop_last().len() implies {
                ||| #[trigger] a.drop_last()[i] == b.drop_last()[i]
                ||| 'A' <= a.drop_last()[i] && a.drop_last()[i] <= 'Z' && b.drop_last()[i] as u32
                    == a.drop_last()[i] as u32 + 32
                ||| 'A' <= b.drop_last()[i] && b.drop_last()[i] <= 'Z' && a.drop_last()[i] as u32
                    == b.drop_last()[i] as u32 + 32
            } by {
                assert(a.drop_last()[i] == a[i]);
                assert(b.drop_last()[i] == b[i]);
            }
        }
        lemma_normalize_ignores_case(a.drop_last(), b.drop_last());
        let x = a.last();
        let y = b.last();
        assert(x == a[n] && y == b[n]);
        if x != y {
            if 'A' <= x && x <= 'Z' {
                assert(y as u32 == x as u32 + 32);
                vstd::utf8::char_u32_cast(y, y as u32);
                assert(((x as u32) + 32) as char == y);
            } else {
                assert(x as u32 == y as u32 + 32);
                vstd::utf8::char_u32_cast(x, x as u32);
                assert(((y as u32) + 32) as char == x);
            }
        }
        assert(normalized_char(x) =~= normalized_char(y));
    }
}

/// Normalises a champion name: keeps ASCII letters (in lower case) and
/// digits, drops every other character.
pub fn normalize_champion_name(name: &str) -> (r: String)
    ensures
        r@ == normalize(name@),
{
    let n = name.unicode_len();
    let mut out = String::new();
    let mut i: usize = 0;
    while i < n
        invariant
            i <= n,
            n == name@.len(),
            out@ == normalize(name@.subrange(0, i as int)),
        decreases n - i,
    {
        let c = name.get_char(i);
        assert(name@.subrange(0, i + 1).drop_last() =~= name@.subrange(0, i as int));
        if ('a' <= c && c <= 'z') || ('0' <= c && c <= '9') {
            push_char(&mut out, c);
            assert(out@ =~= normalize(name@.subrange(0, i + 1)));
        } else if 'A' <= c && c <= 'Z' {
            let lower = ((c as u8) + 32) as char;
            assert(lower == ((c as u32) + 32) as char);
            push_char(&mut out, lower);
            assert(out@ =~= normalize(name@.subrange(0, i + 1)));
        } else {
            assert(out@ =~= normalize(name@.subrange(0, i + 1)));
        }
        i = i + 1;
    }
    assert(name@.subrange(0, n as int) =~= name@);
    out
}

} // verus!
