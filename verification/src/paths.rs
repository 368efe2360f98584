//! Paths on the destination: how a directory and a name below it are joined
//! and normalized.

use vstd::prelude::*;
use crate::text::{joined, split};

verus! {

/// The components after one more piece of a path is taken in: an empty
/// piece and `.` change nothing, `..` takes away the last component, or
/// stays where there is none or the last is `..` itself, and every other
/// piece is one more component.
pub open spec fn stepped(components: Seq<Seq<char>>, piece: Seq<char>) -> Seq<Seq<char>> {
    if piece.len() == 0 || piece == "."@ {
        components
    } else if piece == ".."@ {
        if components.len() == 0 || components.last() == ".."@ {
            components.push(piece)
        } else {
            components.drop_last()
        }
    } else {
        components.push(piece)
    }
}

/// The components after the pieces of a path are taken in, one by one.
pub open spec fn walked(components: Seq<Seq<char>>, pieces: Seq<Seq<char>>) -> Seq<Seq<char>>
    decreases pieces.len(),
{
    if pieces.len() == 0 {
        components
    } else {
        stepped(walked(components, pieces.drop_last()), pieces.last())
    }
}

/// `path` joined to `base` and normalized, both taken as relative paths:
/// the pieces of `base` between slashes are taken in, then those of `path`,
/// and what is left is joined by single slashes.
pub open spec fn normalized_join(base: Seq<char>, path: Seq<char>) -> Seq<char> {
    joined(walked(walked(seq![], split(base, '/')), split(path, '/')), "/"@)
}

/// Calls `RelativePath::new(base).join_normalized(path)` of the
/// `relative-path` crate and takes the result as text. The crate takes both
/// texts apart at slashes, leaves out empty components and `.`, lets each
/// `..` take away the component before it, or keeps it where there is none
/// or the one before is `..`, and joins what is left with single slashes:
/// the result is [`normalized_join`] of the two texts.
#[verifier::external_body]
pub(crate) fn join_normalized(base: &str, path: &str) -> (r: String)
    ensures
        r@ == normalized_join(base@, path@),
{
    relative_path::RelativePath::new(base).join_normalized(path).to_string()
}

/// A name that is one component of a path as it stands: it is not empty,
/// holds no slash, and is neither `.` nor `..`.
pub open spec fn is_plain(name: Seq<char>) -> bool {
    &&& name.len() > 0
    &&& !name.contains('/')
    &&& name != "."@
    &&& name != ".."@
}

/// Every name is plain.
pub open spec fn all_plain(names: Seq<Seq<char>>) -> bool {
    forall|i: int| 0 <= i < names.len() ==> is_plain(#[trigger] names[i])
}

/// There is always a piece.
pub proof fn lemma_split_has_a_piece(s: Seq<char>, sep: char)
    ensures
        split(s, sep).len() >= 1,
    decreases s.len(),
{
    if s.len() > 0 {
        lemma_split_has_a_piece(s.drop_last(), sep);
    }
}

/// A text without the separator is its own single piece.
pub proof fn lemma_split_of_a_piece(s: Seq<char>, sep: char)
    requires
        !s.contains(sep),
    ensures
        split(s, sep) == seq![s],
    decreases s.len(),
{
    if s.len() > 0 {
        assert forall|i: int| 0 <= i < s.drop_last().len() implies s.drop_last()[i] != sep by {
            assert(s.contains(s[i]));
        }
        assert(!s.drop_last().contains(sep));
        lemma_split_of_a_piece(s.drop_last(), sep);
        assert(s.contains(s.last()));
        assert(s.drop_last().push(s.last()) =~= s);
        let before = seq![s.drop_last()];
        assert(before.last() == s.drop_last());
        assert(before.drop_last().push(s) =~= seq![s]);
    } else {
        assert(s =~= Seq::<char>::empty());
    }
}

/// Two texts with a separator between them fall into the pieces of the
/// first and then those of the second.
pub proof fn lemma_split_at_a_separator(a: Seq<char>, b: Seq<char>, sep: char)
    ensures
        split(a + seq![sep] + b, sep) == split(a, sep) + split(b, sep),
    decreases b.len(),
{
    let whole = a + seq![sep] + b;
    if b.len() == 0 {
        assert(whole.drop_last() =~= a);
        assert(whole.last() == sep);
        assert(split(a, sep).push(Seq::<char>::empty()) =~= split(a, sep) + split(b, sep));
    } else {
        lemma_split_at_a_separator(a, b.drop_last(), sep);
        lemma_split_has_a_piece(b.drop_last(), sep);
        assert(whole.drop_last() =~= a + seq![sep] + b.drop_last());
        assert(whole.last() == b.last());
        let before = split(a, sep) + split(b.drop_last(), sep);
        let tail = split(b.drop_last(), sep);
        if b.last() == sep {
            assert(before.push(Seq::<char>::empty()) =~= split(a, sep) + tail.push(
                Seq::<char>::empty(),
            ));
        } else {
            assert(before.last() == tail.last());
            assert(before.drop_last() =~= split(a, sep) + tail.drop_last());
            assert(before.drop_last().push(before.last().push(b.last())) =~= split(a, sep)
                + tail.drop_last().push(tail.last().push(b.last())));
        }
    }
}

/// Plain names joined by slashes fall into those names again; no names at
/// all give one empty piece.
pub proof fn lemma_split_of_joined(names: Seq<Seq<char>>)
    requires
        all_plain(names),
    ensures
        split(joined(names, "/"@), '/') == if names.len() == 0 {
            seq![Seq::<char>::empty()]
        } else {
            names
        },
    decreases names.len(),
{
    reveal_strlit("/");
    if names.len() == 0 {
    } else if names.len() == 1 {
        assert(is_plain(names[0]));
        lemma_split_of_a_piece(names[0], '/');
        assert(seq![names[0]] =~= names);
    } else {
        let front = names.drop_last();
        assert forall|i: int| 0 <= i < front.len() implies is_plain(#[trigger] front[i]) by {
            assert(front[i] == names[i]);
        }
        lemma_split_of_joined(front);
        assert(is_plain(names.last()));
        lemma_split_of_a_piece(names.last(), '/');
        assert("/"@ =~= seq!['/']);
        lemma_split_at_a_separator(joined(front, "/"@), names.last(), '/');
        assert(front + seq![names.last()] =~= names);
    }
}

/// Plain names that are taken in are as many more components.
pub proof fn lemma_walked_plain(components: Seq<Seq<char>>, names: Seq<Seq<char>>)
    requires
        all_plain(names),
    ensures
        walked(components, names) == components + names,
    decreases names.len(),
{
    if names.len() == 0 {
        assert(components + names =~= components);
    } else {
        let front = names.drop_last();
        assert forall|i: int| 0 <= i < front.len() implies is_plain(#[trigger] front[i]) by {
            assert(front[i] == names[i]);
        }
        lemma_walked_plain(components, front);
        assert(is_plain(names.last()));
        assert((components + front).push(names.last()) =~= components + names);
    }
}

/// The pieces of a path of plain names, with or without a slash in front,
/// are taken in as those names.
pub proof fn lemma_walked_path(components: Seq<Seq<char>>, names: Seq<Seq<char>>, rooted: bool)
    requires
        all_plain(names),
    ensures
        walked(
            components,
            split(
                if rooted {
                    "/"@ + joined(names, "/"@)
                } else {
                    joined(names, "/"@)
                },
                '/',
            ),
        ) == components + names,
{
    reveal_strlit("/");
    lemma_split_of_joined(names);
    lemma_walked_plain(components, names);
    let pieces = split(joined(names, "/"@), '/');
    let blank = seq![Seq::<char>::empty()];
    assert(walked(components, blank) == components) by {
        assert(blank.drop_last().len() == 0);
        assert(walked(components, blank.drop_last()) == components);
    }
    assert(walked(components, pieces) == components + names) by {
        if names.len() == 0 {
            assert(components + names =~= components);
        }
    }
    if rooted {
        let empty = Seq::<char>::empty();
        assert("/"@ + joined(names, "/"@) =~= empty + seq!['/'] + joined(names, "/"@));
        lemma_split_at_a_separator(empty, joined(names, "/"@), '/');
        assert(split(empty, '/') == blank);
        lemma_walked_twice(components, blank, pieces);
    }
}

/// Taking in two runs of pieces, one after the other, is taking in all of
/// them.
pub proof fn lemma_walked_twice(
    components: Seq<Seq<char>>,
    first: Seq<Seq<char>>,
    second: Seq<Seq<char>>,
)
    ensures
        walked(components, first + second) == walked(walked(components, first), second),
    decreases second.len(),
{
    if second.len() == 0 {
        assert(first + second =~= first);
    } else {
        lemma_walked_twice(components, first, second.drop_last());
        assert((first + second).drop_last() =~= first + second.drop_last());
        assert((first + second).last() == second.last());
    }
}

/// Where every name is plain, joining is putting the names one after the
/// other: a directory of plain names below the root, joined with a path of
/// plain names, is the path of all these names.
pub proof fn law_plain_names_join_as_they_stand(
    directory: Seq<Seq<char>>,
    below: Seq<Seq<char>>,
    rooted: bool,
)
    requires
        all_plain(directory),
        all_plain(below),
    ensures
        normalized_join(
            if rooted {
                "/"@ + joined(directory, "/"@)
            } else {
                joined(directory, "/"@)
            },
            joined(below, "/"@),
        ) == joined(directory + below, "/"@),
{
    lemma_walked_path(seq![], directory, rooted);
    assert(Seq::<Seq<char>>::empty() + directory =~= directory);
    lemma_walked_path(directory, below, false);
}

/// Joining with `./` leaves a directory of plain names as it is.
pub proof fn law_the_directory_itself(directory: Seq<Seq<char>>, rooted: bool)
    requires
        all_plain(directory),
    ensures
        normalized_join(
            if rooted {
                "/"@ + joined(directory, "/"@)
            } else {
                joined(directory, "/"@)
            },
            "./"@,
        ) == joined(directory, "/"@),
{
    reveal_strlit("./");
    reveal_strlit(".");
    lemma_walked_path(seq![], directory, rooted);
    assert(Seq::<Seq<char>>::empty() + directory =~= directory);
    let dot = seq!['.'];
    let empty = Seq::<char>::empty();
    assert("./"@ =~= dot + seq!['/'] + empty);
    lemma_split_at_a_separator(dot, empty, '/');
    assert(!dot.contains('/'));
    lemma_split_of_a_piece(dot, '/');
    let pieces = seq![dot] + seq![empty];
    assert(split("./"@, '/') == pieces);
    assert(dot =~= "."@);
    assert(pieces.drop_last() =~= seq![dot]);
    assert(seq![dot].drop_last().len() == 0);
    assert(walked(directory, seq![dot].drop_last()) == directory);
    assert(walked(directory, seq![dot]) == directory);
    assert(walked(directory, pieces) == directory);
}

} // verus!
