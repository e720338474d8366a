//! Ordering and joining of plain text values.

use vstd::prelude::*;
use vstd::string::StrSliceExecFns;

verus! {

/// Lexicographic order on character sequences, by Unicode scalar value.
pub open spec fn lex_lt(a: Seq<char>, b: Seq<char>) -> bool
    decreases a.len(),
{
    if b.len() == 0 {
        false
    } else if a.len() == 0 {
        true
    } else if a[0] != b[0] {
        (a[0] as u32) < (b[0] as u32)
    } else {
        lex_lt(a.skip(1), b.skip(1))
    }
}

/// Nothing orders before itself under `lex_lt`.
pub proof fn lex_lt_irreflexive(a: Seq<char>)
    ensures
        !lex_lt(a, a),
    decreases a.len(),
{
    if a.len() > 0 {
        lex_lt_irreflexive(a.skip(1));
    }
}

/// `lex_lt` is a strict order: two sequences are either ordered one way,
/// ordered the other way, or equal.
pub proof fn lex_lt_trichotomy(a: Seq<char>, b: Seq<char>)
    ensures
        lex_lt(a, b) || lex_lt(b, a) || a == b,
    decreases a.len(),
{
    if a.len() == 0 && b.len() == 0 {
        assert(a =~= b);
    } else if a.len() == 0 || b.len() == 0 {
        assert(lex_lt(a, b) || lex_lt(b, a));
    } else if a[0] != b[0] {
        assert((a[0] as u32) != (b[0] as u32)) by {
            vstd::utf8::char_u32_cast(a[0], a[0] as u32);
            vstd::utf8::char_u32_cast(b[0], b[0] as u32);
        }
        assert(lex_lt(a, b) || lex_lt(b, a));
    } else {
        lex_lt_trichotomy(a.skip(1), b.skip(1));
        if !lex_lt(a, b) && !lex_lt(b, a) {
            assert(!lex_lt(a.skip(1), b.skip(1)));
            assert(!lex_lt(b.skip(1), a.skip(1)));
            assert(a.skip(1) == b.skip(1));
            assert(a.len() == b.len()) by {
                assert(a.skip(1).len() == b.skip(1).len());
            }
            assert forall|i: int| 0 <= i < a.len() implies a[i] == b[i] by {
                if i >= 1 {
                    assert(a[i] == a.skip(1)[i - 1]);
                    assert(b[i] == b.skip(1)[i - 1]);
                }
            }
            assert(a =~= b);
        }
    }
}

/// `lex_lt` is transitive.
pub proof fn lex_lt_transitive(a: Seq<char>, b: Seq<char>, c: Seq<char>)
    requires
        lex_lt(a, b),
        lex_lt(b, c),
    ensures
        lex_lt(a, c),
    decreases a.len(),
{
    if a.len() > 0 && b.len() > 0 && c.len() > 0 && a[0] == b[0] && b[0] == c[0] {
        lex_lt_transitive(a.skip(1), b.skip(1), c.skip(1));
    }
}

/// Decides `lex_lt` on two string slices.
pub fn str_lex_lt(a: &str, b: &str) -> (r: bool)
    ensures
        r == lex_lt(a@, b@),
{
    let a_len = a.unicode_len();
    let b_len = b.unicode_len();
    let mut i: usize = 0;
    proof {
        assert(a@.skip(0) =~= a@);
        assert(b@.skip(0) =~= b@);
    }
    while i < a_len && i < b_len
        invariant
            i <= a_len,
            i <= b_len,
            a_len == a@.len(),
            b_len == b@.len(),
            lex_lt(a@, b@) == lex_lt(a@.skip(i as int), b@.skip(i as int)),
        decreases a_len - i,
    {
        let ca = a.get_char(i);
        let cb = b.get_char(i);
        proof {
            assert(a@.skip(i as int)[0] == a@[i as int]);
            assert(b@.skip(i as int)[0] == b@[i as int]);
            assert(a@.skip(i as int).skip(1) =~= a@.skip(i as int + 1));
            assert(b@.skip(i as int).skip(1) =~= b@.skip(i as int + 1));
        }
        if ca != cb {
            return (ca as u32) < (cb as u32);
        }
        i = i + 1;
    }
    proof {
        assert(a@.skip(i as int).len() == a_len - i);
        assert(b@.skip(i as int).len() == b_len - i);
    }
    a_len < b_len
}

/// The per-element views of a sequence of strings.
pub open spec fn views_of(s: Seq<String>) -> Seq<Seq<char>> {
    Seq::new(s.len(), |i: int| s[i]@)
}

/// `views_of` distributes over concatenation.
pub proof fn lemma_views_of_concat(a: Seq<String>, b: Seq<String>)
    ensures
        views_of(a + b) =~= views_of(a) + views_of(b),
{
    assert forall|i: int| 0 <= i < (a + b).len() implies views_of(a + b)[i] == (views_of(a)
        + views_of(b))[i] by {
        if i < a.len() {
            assert((a + b)[i] == a[i]);
        } else {
            assert((a + b)[i] == b[i - a.len()]);
        }
    }
}

/// Appends clones of all of `src` to `dst`, in order.
pub fn append_clones(dst: &mut Vec<String>, src: &Vec<String>)
    ensures
        final(dst).deep_view() == old(dst).deep_view() + src.deep_view(),
{
    let ghost base = dst.deep_view();
    let ghost basev = dst@;
    let ghost sv = src.deep_view();
    let mut i: usize = 0;
    while i < src.len()
        invariant
            i <= src.len(),
            sv == src.deep_view(),
            dst@.len() == basev.len() + i,
            forall|k: int| 0 <= k < basev.len() ==> (#[trigger] dst@[k]) == basev[k],
            forall|k: int|
                basev.len() <= k < dst@.len() ==> (#[trigger] dst@[k])@ == sv[k - basev.len()],
        decreases src.len() - i,
    {
        proof {
            assert(sv[i as int] == src@[i as int]@);
        }
        dst.push(src[i].clone());
        i = i + 1;
    }
    proof {
        assert(base.len() == basev.len());
        assert forall|k: int| 0 <= k < dst.deep_view().len() implies dst.deep_view()[k] == (base
            + sv)[k] by {
            assert(dst.deep_view()[k] == dst@[k]@);
            if k < basev.len() {
                assert(base[k] == basev[k]@);
            }
        }
        assert(dst.deep_view() =~= base + sv);
    }
}

/// The text of `items` joined by `sep`, in order.
pub open spec fn spec_join(items: Seq<Seq<char>>, sep: Seq<char>) -> Seq<char>
    decreases items.len(),
{
    if items.len() == 0 {
        Seq::empty()
    } else if items.len() == 1 {
        items[0]
    } else {
        items[0] + sep + spec_join(items.drop_first(), sep)
    }
}

/// Joining one more item appends a separator and that item.
pub proof fn lemma_join_push(items: Seq<Seq<char>>, sep: Seq<char>, x: Seq<char>)
    ensures
        items.len() == 0 ==> spec_join(items.push(x), sep) == x,
        items.len() > 0 ==> spec_join(items.push(x), sep) =~= spec_join(items, sep) + sep + x,
    decreases items.len(),
{
    if items.len() == 0 {
        assert(spec_join(items.push(x), sep) == items.push(x)[0]);
        assert(items.push(x)[0] == x);
    } else if items.len() == 1 {
        assert(items.push(x).drop_first() =~= items.drop_first().push(x));
        assert(spec_join(items.drop_first().push(x), sep) == x);
        assert(items.push(x)[0] == items[0]);
    } else {
        assert(items.push(x).drop_first() =~= items.drop_first().push(x));
        lemma_join_push(items.drop_first(), sep, x);
        assert(items.push(x)[0] == items[0]);
        assert(spec_join(items.push(x), sep) == items[0] + sep + spec_join(
            items.drop_first().push(x),
            sep,
        ));
        assert(items[0] + sep + (spec_join(items.drop_first(), sep) + sep + x) =~= (items[0] + sep
            + spec_join(items.drop_first(), sep)) + sep + x);
    }
}

/// Joins the items with `", "` between them.
pub fn join_comma(items: &Vec<String>) -> (r: String)
    ensures
        r@ == spec_join(items.deep_view(), ", "@),
{
    let mut out = String::new();
    let mut i: usize = 0;
    while i < items.len()
        invariant
            i <= items.len(),
            out@ == spec_join(items.deep_view().take(i as int), ", "@),
        decreases items.len() - i,
    {
        proof {
            assert(items.deep_view().take(i as int).push(items.deep_view()[i as int])
                =~= items.deep_view().take(i as int + 1));
            lemma_join_push(items.deep_view().take(i as int), ", "@, items.deep_view()[i as int]);
            assert(items.deep_view()[i as int] == items@[i as int]@);
        }
        if i > 0 {
            out.append(", ");
        }
        out.append(items[i].as_str());
        i = i + 1;
    }
    proof {
        assert(items.deep_view().take(items.len() as int) =~= items.deep_view());
    }
    out
}

} // verus!
