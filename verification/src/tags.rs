//! Tags of snapshots, as they are written on the command line.

use vstd::prelude::*;
use crate::text;
use crate::text::Alphabet;
use crate::text_set::TextSet;

verus! {

/// The mark that stands for "no tag at all".
pub const EMPTY_TAG_MARK: &'static str = "[]";

/// The tags that a comma-separated list names: its pieces without the white
/// space around them, the empty ones left out.
pub open spec fn tags_named(list: Seq<char>) -> Set<Seq<char>> {
    Set::new(|tag: Seq<char>| tag.len() > 0 && in_pieces(text::pieces(list, ','), tag))
}

/// Whether a text is, without the white space around it, one of the given pieces.
pub open spec fn in_pieces(ps: Seq<Seq<char>>, tag: Seq<char>) -> bool {
    exists|i: int| 0 <= i < ps.len() && tag == text::trimmed(#[trigger] ps[i])
}

/// Reads a comma-separated list of tags. No list means no tags.
pub fn parse_tags(s: Option<&str>) -> (r: TextSet)
    ensures
        r.well_formed(),
        r.alphabet == Alphabet::Plain,
        r@ == (match s {
            Some(list) => tags_named(list@),
            None => Set::<Seq<char>>::empty(),
        }),
{
    let list: &str = match s {
        Some(list) => list,
        None => {
            return TextSet::new(Alphabet::Plain);
        },
    };
    let cs = text::chars_of(list);
    let mut out = TextSet::new(Alphabet::Plain);
    let mut start: usize = 0;
    let mut i: usize = 0;
    proof {
        assert(cs@.subrange(0, 0) =~= Seq::<char>::empty());
        assert(text::pieces(cs@.take(0), ',') == seq![Seq::<char>::empty()]);
    }
    while i < cs.len()
        invariant
            cs@ == list@,
            start <= i <= cs@.len(),
            out.well_formed(),
            out.alphabet == Alphabet::Plain,
            text::pieces(cs@.take(i as int), ',').len() > 0,
            text::pieces(cs@.take(i as int), ',').last() == cs@.subrange(start as int, i as int),
            forall|t: Seq<char>| #[trigger]
                out@.contains(t) <==> t.len() > 0 && in_pieces(text::pieces(cs@.take(i as int), ',').drop_last(), t),
        decreases cs@.len() - i,
    {
        let ghost done = text::pieces(cs@.take(i as int), ',');
        let ghost next = text::pieces(cs@.take(i + 1), ',');
        assert(cs@.take(i + 1).drop_last() =~= cs@.take(i as int));
        if cs[i] == ',' {
            let ghost had = out@;
            add_piece(list, &cs, start, i, &mut out);
            assert(next.drop_last() =~= done);
            proof {
                lemma_one_more_piece(done, had, out@);
            }
            start = i + 1;
            assert(cs@.subrange(i + 1, i + 1) =~= Seq::<char>::empty());
        } else {
            assert(next.drop_last() =~= done.drop_last());
            assert(cs@.subrange(start as int, i + 1) =~= cs@.subrange(start as int, i as int).push(cs@[i as int]));
        }
        i = i + 1;
    }
    let ghost had = out@;
    add_piece(list, &cs, start, i, &mut out);
    proof {
        assert(cs@.take(cs@.len() as int) =~= list@);
        lemma_one_more_piece(text::pieces(list@, ','), had, out@);
        assert(out@ =~= tags_named(list@));
    }
    out
}

proof fn lemma_one_more_piece(ps: Seq<Seq<char>>, had: Set<Seq<char>>, has: Set<Seq<char>>)
    requires
        ps.len() > 0,
        forall|t: Seq<char>| #[trigger] had.contains(t) <==> t.len() > 0 && in_pieces(ps.drop_last(), t),
        has == (if text::trimmed(ps.last()).len() > 0 {
            had.insert(text::trimmed(ps.last()))
        } else {
            had
        }),
    ensures
        forall|t: Seq<char>| #[trigger] has.contains(t) <==> t.len() > 0 && in_pieces(ps, t),
{
    assert forall|t: Seq<char>| #[trigger] has.contains(t) <==> t.len() > 0 && in_pieces(ps, t) by {
        assert(had.contains(t) <==> t.len() > 0 && in_pieces(ps.drop_last(), t));
        if in_pieces(ps.drop_last(), t) {
            let k = choose|k: int| 0 <= k < ps.len() - 1 && t == text::trimmed(#[trigger] ps.drop_last()[k]);
            assert(ps[k] == ps.drop_last()[k]);
        }
        if in_pieces(ps, t) {
            let k = choose|k: int| 0 <= k < ps.len() && t == text::trimmed(#[trigger] ps[k]);
            if k < ps.len() - 1 {
                assert(ps.drop_last()[k] == ps[k]);
            }
        }
        if t == text::trimmed(ps.last()) {
            assert(t == text::trimmed(ps[ps.len() - 1]));
        }
    }
}

/// Puts `cs[from..to]`, without the white space around it, into the set, unless
/// nothing is left of it.
fn add_piece(list: &str, cs: &Vec<char>, from: usize, to: usize, out: &mut TextSet)
    requires
        cs@ == list@,
        from <= to <= cs@.len(),
        old(out).well_formed(),
    ensures
        final(out).well_formed(),
        final(out).alphabet == old(out).alphabet,
        final(out)@ == (if text::trimmed(cs@.subrange(from as int, to as int)).len() > 0 {
            old(out)@.insert(text::trimmed(cs@.subrange(from as int, to as int)))
        } else {
            old(out)@
        }),
{
    let (a, b) = text::trim_bounds(cs, from, to);
    if a < b {
        out.insert(list.substring_char(a, b).to_owned());
    }
}

/// No tag is empty, and none has white space around it.
pub proof fn law_tags_are_trimmed(list: Seq<char>, tag: Seq<char>)
    requires
        tags_named(list).contains(tag),
    ensures
        tag.len() > 0,
        !text::is_white(tag[0]),
        !text::is_white(tag.last()),
{
    let i = choose|i: int| 0 <= i < text::pieces(list, ',').len() && tag == text::trimmed(#[trigger] text::pieces(list, ',')[i]);
    text::lemma_trimmed_ends(text::pieces(list, ',')[i]);
}

proof fn lemma_pieces_of_two(a: Seq<char>, b: Seq<char>)
    ensures
        text::pieces(a + seq![','] + b, ',') == text::pieces(a, ',') + text::pieces(b, ','),
    decreases b.len(),
{
    let whole = a + seq![','] + b;
    let left = text::pieces(a, ',');
    if b.len() == 0 {
        assert(whole.drop_last() =~= a);
        assert(text::pieces(whole, ',') =~= left + seq![Seq::<char>::empty()]);
    } else {
        lemma_pieces_of_two(a, b.drop_last());
        text::lemma_some_piece(b.drop_last(), ',');
        let right = text::pieces(b.drop_last(), ',');
        assert(whole.drop_last() =~= a + seq![','] + b.drop_last());
        assert((left + right).last() == right.last());
        assert((left + right).drop_last() =~= left + right.drop_last());
        assert(text::pieces(whole, ',') =~= left + text::pieces(b, ','));
    }
}

/// Two lists with a comma between them name the tags of the one and of the other.
pub proof fn law_lists_add_up(a: Seq<char>, b: Seq<char>)
    ensures
        tags_named(a + seq![','] + b) == tags_named(a).union(tags_named(b)),
{
    lemma_pieces_of_two(a, b);
    let left = text::pieces(a, ',');
    let right = text::pieces(b, ',');
    assert forall|t: Seq<char>| #[trigger] tags_named(a + seq![','] + b).contains(t) == tags_named(a).union(
        tags_named(b),
    ).contains(t) by {
        if in_pieces(left, t) {
            let k = choose|k: int| 0 <= k < left.len() && t == text::trimmed(#[trigger] left[k]);
            assert((left + right)[k] == left[k]);
        }
        if in_pieces(right, t) {
            let k = choose|k: int| 0 <= k < right.len() && t == text::trimmed(#[trigger] right[k]);
            assert((left + right)[left.len() + k] == right[k]);
        }
        if in_pieces(left + right, t) {
            let k = choose|k: int| 0 <= k < (left + right).len() && t == text::trimmed(#[trigger] (left + right)[k]);
            if k < left.len() {
                assert(left[k] == (left + right)[k]);
            } else {
                assert(right[k - left.len()] == (left + right)[k]);
            }
        }
    }
    assert(tags_named(a + seq![','] + b) =~= tags_named(a).union(tags_named(b)));
}

/// A tag by itself is named, with or without white space around it; white space alone
/// names none.
pub proof fn law_a_single_tag_is_named(front: Seq<char>, tag: Seq<char>, back: Seq<char>)
    requires
        forall|i: int| 0 <= i < front.len() ==> text::is_white(#[trigger] front[i]),
        forall|i: int| 0 <= i < back.len() ==> text::is_white(#[trigger] back[i]),
        tag.len() > 0 ==> !text::is_white(tag[0]) && !text::is_white(tag.last()),
        !tag.contains(','),
    ensures
        tag.len() > 0 ==> tags_named(front + tag + back) == set![tag],
        tag.len() == 0 ==> tags_named(front + tag + back) == Set::<Seq<char>>::empty(),
{
    let list = front + tag + back;
    text::law_trimming_takes_white_space_off(front, tag, back);
    assert(!list.contains(',')) by {
        if list.contains(',') {
            let k = choose|k: int| 0 <= k < list.len() && list[k] == ',';
            if k < front.len() {
                assert(text::is_white(front[k]));
            } else if k < front.len() + tag.len() {
                assert(tag[k - front.len()] == ',');
            } else {
                assert(text::is_white(back[k - front.len() - tag.len()]));
            }
        }
    }
    text::law_separators_part_the_pieces(list, Seq::<char>::empty(), ',');
    let ps = text::pieces(list, ',');
    assert forall|t: Seq<char>| #[trigger] tags_named(list).contains(t) <==> t.len() > 0 && t == tag by {
        if t == tag {
            assert(t == text::trimmed(ps[0]));
        }
    }
    if tag.len() > 0 {
        assert(tags_named(list) =~= set![tag]);
    } else {
        assert(tags_named(list) =~= Set::<Seq<char>>::empty());
    }
}

/// A text is named as a tag exactly where it is not empty and is what is left of a piece
/// between commas when the white space around it is gone.
pub proof fn law_tags_are_the_pieces(list: Seq<char>, tag: Seq<char>)
    ensures
        tags_named(list).contains(tag) <==> tag.len() > 0 && exists|i: int|
            0 <= i < text::pieces(list, ',').len() && tag == text::trimmed(#[trigger] text::pieces(list, ',')[i]),
{
}

} // verus!
