//! What holds of the operations on text, said of the texts that go in and come
//! out.

use vstd::prelude::*;

use crate::text;

verus! {

/// White space at the start goes, up to the first other character.
proof fn lemma_trim_start_of(front: Seq<char>, rest: Seq<char>)
    requires
        forall|i: int| 0 <= i < front.len() ==> text::is_white_space(#[trigger] front[i]),
        rest.len() == 0 || !text::is_white_space(rest[0]),
    ensures
        text::trim_start(front + rest) == rest,
    decreases front.len(),
{
    if front.len() == 0 {
        assert(front + rest =~= rest);
    } else {
        assert((front + rest)[0] == front[0]);
        assert((front + rest).drop_first() =~= front.drop_first() + rest);
        lemma_trim_start_of(front.drop_first(), rest);
    }
}

/// White space at the end goes, up to the last other character.
proof fn lemma_trim_end_of(rest: Seq<char>, back: Seq<char>)
    requires
        forall|i: int| 0 <= i < back.len() ==> text::is_white_space(#[trigger] back[i]),
        rest.len() == 0 || !text::is_white_space(rest.last()),
    ensures
        text::trim_end(rest + back) == rest,
    decreases back.len(),
{
    if back.len() == 0 {
        assert(rest + back =~= rest);
    } else {
        assert((rest + back).last() == back.last());
        assert((rest + back).drop_last() =~= rest + back.drop_last());
        lemma_trim_end_of(rest, back.drop_last());
    }
}

/// Trimming takes exactly the white space around a text: between white space of any
/// length, a text that neither starts nor ends with any is what is left.
pub proof fn law_trimming_leaves_what_is_between(
    front: Seq<char>,
    t: Seq<char>,
    back: Seq<char>,
)
    requires
        forall|i: int| 0 <= i < front.len() ==> text::is_white_space(#[trigger] front[i]),
        forall|i: int| 0 <= i < back.len() ==> text::is_white_space(#[trigger] back[i]),
        t.len() == 0 || !text::is_white_space(t[0]) && !text::is_white_space(t.last()),
    ensures
        text::trimmed(front + t + back) == t,
{
    if t.len() == 0 {
        let all = front + back;
        assert(front + t + back =~= all + Seq::<char>::empty());
        assert forall|i: int| 0 <= i < all.len() implies text::is_white_space(
            #[trigger] all[i],
        ) by {
            if i < front.len() {
                assert(text::is_white_space(front[i]));
            } else {
                assert(text::is_white_space(back[i - front.len()]));
            }
        }
        lemma_trim_start_of(all, Seq::empty());
        assert(text::trim_end(Seq::<char>::empty()) =~= t);
    } else {
        assert(front + t + back =~= front + (t + back));
        assert((t + back)[0] == t[0]);
        lemma_trim_start_of(front, t + back);
        lemma_trim_end_of(t, back);
    }
}

/// Joining is done part by part: what two lists make together is what each makes,
/// with the separator between; one part makes itself.
pub proof fn law_joining_goes_part_by_part(
    first: Seq<Seq<char>>,
    second: Seq<Seq<char>>,
    separator: Seq<char>,
)
    requires
        first.len() > 0,
        second.len() > 0,
    ensures
        text::joined(first + second, separator) == text::joined(first, separator) + separator
            + text::joined(second, separator),
        first.len() == 1 ==> text::joined(first, separator) == first[0],
    decreases second.len(),
{
    let all = first + second;
    assert(all.last() == second.last());
    if second.len() == 1 {
        assert(all.drop_last() =~= first);
    } else {
        let front = second.drop_last();
        assert(all.drop_last() =~= first + front);
        law_joining_goes_part_by_part(first, front, separator);
        assert(text::joined(all, separator) =~= text::joined(first, separator) + separator
            + text::joined(second, separator));
    }
}

/// A text is its pieces with the separator between them, and no piece holds the
/// separator.
pub proof fn law_pieces_make_the_text(s: Seq<char>, separator: char)
    ensures
        text::pieces(s, separator).len() > 0,
        text::joined(text::pieces(s, separator), seq![separator]) == s,
        forall|i: int|
            0 <= i < text::pieces(s, separator).len() ==> !(#[trigger] text::pieces(
                s,
                separator,
            )[i]).contains(separator),
    decreases s.len(),
{
    let p = text::pieces(s, separator);
    let by = seq![separator];
    if s.len() == 0 {
        assert(text::joined(p, by) =~= s);
    } else {
        let front = s.drop_last();
        let before = text::pieces(front, separator);
        law_pieces_make_the_text(front, separator);
        if s.last() == separator {
            assert(p.drop_last() =~= before);
            assert(text::joined(p, by) =~= s);
            assert forall|i: int| 0 <= i < p.len() implies !(#[trigger] p[i]).contains(
                separator,
            ) by {
                if i < before.len() {
                    assert(p[i] == before[i]);
                }
            }
        } else {
            let last = before.last().push(s.last());
            assert(p.drop_last() =~= before.drop_last());
            assert(p.last() == last);
            assert(text::joined(p, by) =~= s) by {
                assert(s =~= front.push(s.last()));
                if before.len() > 1 {
                    let start = text::joined(before.drop_last(), by) + by;
                    assert(text::joined(before, by) == start + before.last());
                    assert(text::joined(p, by) == start + last);
                    assert(start + last =~= (start + before.last()).push(s.last()));
                } else {
                    assert(p.len() == 1);
                    assert(p[0] == last);
                    assert(text::joined(before, by) == before[0]);
                }
            }
            assert forall|i: int| 0 <= i < p.len() implies !(#[trigger] p[i]).contains(
                separator,
            ) by {
                if i < before.len() - 1 {
                    assert(p[i] == before[i]);
                } else {
                    assert(!before[i].contains(separator));
                    if last.contains(separator) {
                        let k = choose|k: int| 0 <= k < last.len() && last[k] == separator;
                        assert(before[i][k] == separator);
                    }
                }
            }
        }
    }
}

/// The pieces of two texts with the separator between them are the pieces of the
/// one and then those of the other.
pub proof fn law_splitting_goes_text_by_text(
    first: Seq<char>,
    second: Seq<char>,
    separator: char,
)
    ensures
        text::pieces(first + seq![separator] + second, separator) == text::pieces(
            first,
            separator,
        ) + text::pieces(second, separator),
    decreases second.len(),
{
    let all = first + seq![separator] + second;
    law_pieces_make_the_text(second, separator);
    if second.len() == 0 {
        assert(all.drop_last() =~= first);
        assert(text::pieces(all, separator) =~= text::pieces(first, separator) + text::pieces(
            second,
            separator,
        ));
    } else {
        let front = second.drop_last();
        assert(all.drop_last() =~= first + seq![separator] + front);
        law_splitting_goes_text_by_text(first, front, separator);
        law_pieces_make_the_text(front, separator);
        let a = text::pieces(first, separator);
        let b = text::pieces(front, separator);
        assert((a + b).drop_last() =~= a + b.drop_last());
        assert((a + b).last() == b.last());
        assert(text::pieces(all, separator) =~= a + text::pieces(second, separator));
    }
}

/// A text starts with another exactly where it is that text and something more.
pub proof fn law_what_starts_with_a_prefix(s: Seq<char>, prefix: Seq<char>, rest: Seq<char>)
    ensures
        text::starts_with(prefix + rest, prefix),
        (prefix + rest).skip(prefix.len() as int) == rest,
        text::starts_with(s, prefix) ==> s == prefix + s.skip(prefix.len() as int),
{
    assert((prefix + rest).take(prefix.len() as int) =~= prefix);
    assert((prefix + rest).skip(prefix.len() as int) =~= rest);
    if text::starts_with(s, prefix) {
        assert(s =~= s.take(prefix.len() as int) + s.skip(prefix.len() as int));
    }
}

/// A text holds another wherever that stands in it, and only there.
pub proof fn law_what_a_text_holds(front: Seq<char>, needle: Seq<char>, back: Seq<char>, s: Seq<char>)
    ensures
        text::occurs_in(front + needle + back, needle),
        text::occurs_in(s, needle) ==> exists|a: Seq<char>, b: Seq<char>|
            s == #[trigger] (a + needle + b),
{
    let all = front + needle + back;
    assert(all.subrange(front.len() as int, (front.len() + needle.len()) as int) =~= needle);
    assert(text::occurs_at(all, needle, front.len() as int));
    if text::occurs_in(s, needle) {
        let k = choose|k: int| text::occurs_at(s, needle, k);
        assert(s =~= s.take(k) + needle + s.skip(k + needle.len()));
    }
}

/// Only the character that is asked for goes from the end, and all of it goes.
pub proof fn law_only_trailing_characters_go(s: Seq<char>, c: char, n: nat)
    ensures
        s.len() == 0 || s.last() != c ==> text::without_trailing(
            s + Seq::new(n, |i: int| c),
            c,
        ) == s,
    decreases n,
{
    let all = s + Seq::new(n, |i: int| c);
    if n == 0 {
        assert(all =~= s);
    } else {
        assert(all.last() == c);
        assert(all.drop_last() =~= s + Seq::new((n - 1) as nat, |i: int| c));
        law_only_trailing_characters_go(s, c, (n - 1) as nat);
    }
}

/// Lower case keeps the length, and changes exactly the capital letters of ASCII,
/// each into its small one.
pub proof fn law_lower_case_is_for_capitals(s: Seq<char>, i: int)
    requires
        0 <= i < s.len(),
    ensures
        text::lowered(s).len() == s.len(),
        'A' <= s[i] <= 'Z' ==> text::lowered(s)[i] as int == s[i] as int + 32,
        !('A' <= s[i] <= 'Z') ==> text::lowered(s)[i] == s[i],
        text::lowered(text::lowered(s)) == text::lowered(s),
{
    assert(text::lowered(text::lowered(s)) =~= text::lowered(s));
}

/// White space is what Unicode counts as such, by the numbers of its characters.
pub proof fn law_white_space_is_unicodes(c: char)
    ensures
        text::is_white_space(c) <==> {
            let n = c as int;
            ||| 9 <= n <= 13
            ||| n == 32
            ||| n == 133
            ||| n == 160
            ||| n == 5760
            ||| 8192 <= n <= 8202
            ||| n == 8232 || n == 8233
            ||| n == 8239
            ||| n == 8287
            ||| n == 12288
        },
{
}

} // verus!
