//! The path list as it is stored: one string, its entries separated by `;`.
//!
//! Reading a stored value keeps the entries in order and drops the empty
//! ones; writing joins the entries with the separator.

use vstd::prelude::*;
use vstd::string::StrSliceExecFns;
use vstd::string::StringExecFns;
use crate::seq_facts::{lemma_filter_keeps_all, lemma_filter_members};
use crate::text::texts;

verus! {

/// The character between two entries of a stored path list.
pub const SEPARATOR: char = ';';

/// `s` cut at every separator. Empty pieces are kept, so there is always
/// one piece more than there are separators.
pub open spec fn pieces(s: Seq<char>) -> Seq<Seq<char>>
    decreases s.len(),
{
    if s.len() == 0 {
        seq![Seq::empty()]
    } else {
        let before = pieces(s.drop_last());
        if s.last() == SEPARATOR {
            before.push(Seq::empty())
        } else {
            before.drop_last().push(before.last().push(s.last()))
        }
    }
}

/// Whether a piece counts as an entry: the empty ones do not.
pub open spec fn is_filled(piece: Seq<char>) -> bool {
    piece.len() > 0
}

/// The entries of the stored value `s`: its non-empty pieces, in order.
pub open spec fn entries(s: Seq<char>) -> Seq<Seq<char>> {
    pieces(s).filter(|piece: Seq<char>| is_filled(piece))
}

/// The stored value of a list: its parts with a separator between each two.
pub open spec fn joined(parts: Seq<Seq<char>>) -> Seq<char>
    decreases parts.len(),
{
    if parts.len() == 0 {
        Seq::empty()
    } else if parts.len() == 1 {
        parts[0]
    } else {
        joined(parts.drop_last()) + seq![SEPARATOR] + parts.last()
    }
}

/// What can stand as one entry of a path list: a text that is not empty and
/// holds no separator.
pub open spec fn is_entry(p: Seq<char>) -> bool {
    p.len() > 0 && !p.contains(SEPARATOR)
}

/// A path list: every element can stand as an entry.
pub open spec fn is_path_list(parts: Seq<Seq<char>>) -> bool {
    forall|i: int| 0 <= i < parts.len() ==> is_entry(#[trigger] parts[i])
}

/// The entries of every part, one part after the other.
pub open spec fn entries_of_all(parts: Seq<Seq<char>>) -> Seq<Seq<char>>
    decreases parts.len(),
{
    if parts.len() == 0 {
        Seq::empty()
    } else {
        entries_of_all(parts.drop_last()) + entries(parts.last())
    }
}

/// A text always has at least one piece, and no piece holds a separator.
pub proof fn lemma_pieces_shape(s: Seq<char>)
    ensures
        pieces(s).len() >= 1,
        forall|i: int| 0 <= i < pieces(s).len() ==> !(#[trigger] pieces(s)[i]).contains(SEPARATOR),
    decreases s.len(),
{
    if s.len() > 0 {
        lemma_pieces_shape(s.drop_last());
        let before = pieces(s.drop_last());
        let now = pieces(s);
        if s.last() != SEPARATOR {
            let grown = before.last().push(s.last());
            assert forall|j: int| 0 <= j < grown.len() implies grown[j] != SEPARATOR by {
                if j < before.last().len() {
                    assert(before.last().contains(grown[j]));
                }
            }
            assert forall|i: int| 0 <= i < now.len() implies !(#[trigger] now[i]).contains(
                SEPARATOR,
            ) by {
                if i < before.len() - 1 {
                    assert(now[i] == before[i]);
                }
            }
        } else {
            assert forall|i: int| 0 <= i < now.len() implies !(#[trigger] now[i]).contains(
                SEPARATOR,
            ) by {
                if i < before.len() {
                    assert(now[i] == before[i]);
                }
            }
        }
    }
}

/// Cutting a text into pieces and joining them again gives the text back.
pub proof fn lemma_joined_pieces(s: Seq<char>)
    ensures
        joined(pieces(s)) == s,
    decreases s.len(),
{
    if s.len() == 0 {
        assert(joined(pieces(s)) =~= s);
    } else {
        let rest = s.drop_last();
        let before = pieces(rest);
        lemma_joined_pieces(rest);
        lemma_pieces_shape(rest);
        if s.last() == SEPARATOR {
            assert(pieces(s).drop_last() =~= before);
            assert(joined(pieces(s)) =~= s);
        } else {
            let grown = before.last().push(s.last());
            if before.len() == 1 {
                assert(joined(pieces(s)) =~= s);
            } else {
                assert(pieces(s).drop_last() =~= before.drop_last());
                assert(pieces(s).last() == grown);
                assert(joined(before) == joined(before.drop_last()) + seq![SEPARATOR]
                    + before.last());
                assert(s =~= rest.push(s.last()));
                assert(joined(pieces(s)) =~= s);
            }
        }
    }
}

/// Every entry read from a stored value can stand as an entry.
pub proof fn lemma_entries_form_path_list(s: Seq<char>)
    ensures
        is_path_list(entries(s)),
{
    let keep = |piece: Seq<char>| is_filled(piece);
    lemma_pieces_shape(s);
    lemma_filter_members(pieces(s), keep);
    assert forall|i: int| 0 <= i < entries(s).len() implies is_entry(#[trigger] entries(s)[i]) by {
        let e = entries(s)[i];
        let j = choose|j: int| 0 <= j < pieces(s).len() && pieces(s)[j] == e;
        assert(!pieces(s)[j].contains(SEPARATOR));
    }
}

/// A separator between two texts keeps their pieces apart.
pub proof fn lemma_pieces_across_separator(a: Seq<char>, b: Seq<char>)
    ensures
        pieces(a + seq![SEPARATOR] + b) == pieces(a) + pieces(b),
    decreases b.len(),
{
    let whole = a + seq![SEPARATOR] + b;
    if b.len() == 0 {
        assert(whole.drop_last() =~= a);
        assert(pieces(whole) =~= pieces(a) + pieces(b));
    } else {
        lemma_pieces_across_separator(a, b.drop_last());
        lemma_pieces_shape(b.drop_last());
        assert(whole.drop_last() =~= a + seq![SEPARATOR] + b.drop_last());
        assert(whole.last() == b.last());
        assert(pieces(whole) =~= pieces(a) + pieces(b));
    }
}

/// A text that can stand as an entry is its own single entry.
pub proof fn lemma_entries_of_entry(p: Seq<char>)
    requires
        !p.contains(SEPARATOR),
    ensures
        pieces(p) == seq![p],
        is_filled(p) ==> entries(p) == seq![p],
        !is_filled(p) ==> entries(p) == Seq::<Seq<char>>::empty(),
    decreases p.len(),
{
    let keep = |piece: Seq<char>| is_filled(piece);
    if p.len() == 0 {
        assert(p =~= Seq::<char>::empty());
        assert(pieces(p) =~= seq![p]);
    } else {
        assert forall|j: int| 0 <= j < p.drop_last().len() implies p.drop_last()[j]
            != SEPARATOR by {
            assert(p.contains(p[j]));
        }
        lemma_entries_of_entry(p.drop_last());
        assert(p.contains(p.last()));
        assert(p.drop_last().push(p.last()) =~= p);
        assert(pieces(p) =~= seq![p]);
    }
    assert(seq![p] =~= Seq::<Seq<char>>::empty().push(p));
    reveal_with_fuel(Seq::filter, 2);
    assert(Seq::<Seq<char>>::empty().push(p).drop_last() =~= Seq::<Seq<char>>::empty());
}

/// Reading a joined list gives the entries of its parts, one part after the
/// other.
pub proof fn lemma_entries_of_joined(parts: Seq<Seq<char>>)
    ensures
        entries(joined(parts)) == entries_of_all(parts),
    decreases parts.len(),
{
    let keep = |piece: Seq<char>| is_filled(piece);
    if parts.len() == 0 {
        lemma_entries_of_entry(Seq::<char>::empty());
    } else if parts.len() == 1 {
        assert(entries_of_all(parts.drop_last()) =~= Seq::<Seq<char>>::empty());
        assert(entries_of_all(parts) =~= entries(parts[0]));
    } else {
        let front = parts.drop_last();
        lemma_entries_of_joined(front);
        lemma_pieces_across_separator(joined(front), parts.last());
        Seq::filter_distributes_over_add(pieces(joined(front)), pieces(parts.last()), keep);
    }
}

/// The entries of the parts of a path list are the parts themselves.
pub proof fn lemma_entries_of_path_list(parts: Seq<Seq<char>>)
    requires
        is_path_list(parts),
    ensures
        entries_of_all(parts) == parts,
    decreases parts.len(),
{
    if parts.len() > 0 {
        let front = parts.drop_last();
        assert forall|i: int| 0 <= i < front.len() implies is_entry(#[trigger] front[i]) by {
            assert(front[i] == parts[i]);
        }
        lemma_entries_of_path_list(front);
        assert(is_entry(parts[parts.len() - 1]));
        lemma_entries_of_entry(parts.last());
        assert(entries_of_all(parts) =~= parts);
    } else {
        assert(entries_of_all(parts) =~= parts);
    }
}

/// Writing a path list and reading it again gives the same list.
pub proof fn lemma_read_after_write(parts: Seq<Seq<char>>)
    requires
        is_path_list(parts),
    ensures
        entries(joined(parts)) == parts,
{
    lemma_entries_of_joined(parts);
    lemma_entries_of_path_list(parts);
}

/// Reading a stored value and writing the result gives a value that reads
/// the same: a second round changes nothing.
pub proof fn lemma_write_after_read_is_stable(s: Seq<char>)
    ensures
        entries(joined(entries(s))) == entries(s),
        joined(entries(joined(entries(s)))) == joined(entries(s)),
{
    lemma_entries_form_path_list(s);
    lemma_read_after_write(entries(s));
}

/// A stored value without empty pieces is written back unchanged, and so
/// is the empty value.
pub proof fn lemma_write_after_read_without_empty_pieces(s: Seq<char>)
    requires
        s.len() == 0 || forall|i: int|
            0 <= i < pieces(s).len() ==> is_filled(#[trigger] pieces(s)[i]),
    ensures
        joined(entries(s)) == s,
{
    let keep = |piece: Seq<char>| is_filled(piece);
    if s.len() == 0 {
        lemma_entries_of_entry(s);
        assert(joined(entries(s)) =~= s);
    } else {
        lemma_filter_keeps_all(pieces(s), keep);
        lemma_joined_pieces(s);
    }
}

/// Reads a stored path list: the non-empty pieces between separators, in
/// order and unchanged.
pub fn parse_path_list(raw: &str) -> (parts: Vec<String>)
    ensures
        texts(parts@) == entries(raw@),
{
    let ghost keep = |piece: Seq<char>| is_filled(piece);
    // Counting the characters shows that every position among them fits.
    let total = raw.unicode_len();
    let mut parts: Vec<String> = Vec::new();
    let mut start: usize = 0;
    let mut pos: usize = 0;
    proof {
        assert(raw@.take(0) =~= Seq::<char>::empty());
        assert(pieces(raw@.take(0)).drop_last() =~= Seq::<Seq<char>>::empty());
        reveal(Seq::filter);
        assert(texts(parts@) =~= pieces(raw@.take(0)).drop_last().filter(keep));
        assert(pieces(raw@.take(0)).last() =~= raw@.subrange(0, 0));
    }
    for c in it: raw.chars()
        invariant
            it.seq() == raw@,
            total == raw@.len(),
            pos == it.index(),
            start <= pos,
            keep == |piece: Seq<char>| is_filled(piece),
            pieces(raw@.take(pos as int)).len() >= 1,
            pieces(raw@.take(pos as int)).last() == raw@.subrange(start as int, pos as int),
            texts(parts@) == pieces(raw@.take(pos as int)).drop_last().filter(keep),
    {
        let ghost seen = raw@.take(pos as int);
        let ghost next = raw@.take(pos as int + 1);
        proof {
            assert(next.drop_last() =~= seen);
            assert(next.last() == c);
            lemma_pieces_shape(next);
        }
        if c == SEPARATOR {
            proof {
                assert(pieces(next).drop_last() =~= pieces(seen));
                assert(pieces(seen) =~= pieces(seen).drop_last().push(pieces(seen).last()));
                pieces(seen).drop_last().lemma_filter_push(pieces(seen).last(), keep);
            }
            if pos > start {
                let part = raw.substring_char(start, pos).to_owned();
                let ghost earlier = texts(parts@);
                parts.push(part);
                assert(texts(parts@) =~= earlier.push(part@));
            }
            start = pos + 1;
            proof {
                assert(pieces(next).last() =~= raw@.subrange(pos as int + 1, pos as int + 1));
            }
        } else {
            proof {
                assert(pieces(next).drop_last() =~= pieces(seen).drop_last());
                assert(pieces(next).last() =~= raw@.subrange(start as int, pos as int + 1));
            }
        }
        pos = pos + 1;
    }
    proof {
        assert(raw@.take(pos as int) =~= raw@);
        assert(pieces(raw@) =~= pieces(raw@).drop_last().push(pieces(raw@).last()));
        pieces(raw@).drop_last().lemma_filter_push(pieces(raw@).last(), keep);
    }
    if pos > start {
        let part = raw.substring_char(start, pos).to_owned();
        let ghost earlier = texts(parts@);
        parts.push(part);
        assert(texts(parts@) =~= earlier.push(part@));
    }
    parts
}

/// Writes a path list: its parts, with a separator between each two.
pub fn join_path_list(parts: &Vec<String>) -> (stored: String)
    ensures
        stored@ == joined(texts(parts@)),
{
    let mut stored = String::new();
    let mut i: usize = 0;
    proof {
        reveal_strlit(";");
        assert(texts(parts@).take(0) =~= Seq::<Seq<char>>::empty());
    }
    while i < parts.len()
        invariant
            i <= parts.len(),
            ";"@ == seq![SEPARATOR],
            stored@ == joined(texts(parts@).take(i as int)),
        decreases parts.len() - i,
    {
        let ghost done = texts(parts@).take(i as int);
        let ghost more = texts(parts@).take(i as int + 1);
        proof {
            assert(more.drop_last() =~= done);
            assert(more.last() == parts@[i as int]@);
        }
        if i > 0 {
            stored.append(";");
        }
        stored.append(parts[i].as_str());
        proof {
            assert(stored@ =~= joined(more));
        }
        i = i + 1;
    }
    proof {
        assert(texts(parts@).take(i as int) =~= texts(parts@));
    }
    stored
}

} // verus!
