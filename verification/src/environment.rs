//! Putting together the environment that a launched process inherits.
//!
//! A process that is started while the system comes up may find its own
//! environment cut short. Where the platform keeps the user's environment
//! elsewhere as well, the two are merged: what the process has stays, what it
//! lacks is filled in, and the search path becomes the union of both. The
//! overrides of the configuration then go on top.

use vstd::prelude::*;
use vstd::string::*;

use crate::table::{
    absent_before, first_at, inserted, lemma_lookup_inserted, lemma_position,
    lemma_position_found, lemma_position_none, lookup, position,
};
use crate::text::str_eq;

verus! {

/// A letter of the first alphabet in lower case; any other character as it
/// is.
pub open spec fn lower_of(c: char) -> char {
    if 'A' <= c && c <= 'Z' {
        ((c as u8) + 32) as char
    } else {
        c
    }
}

/// A text with its letters in lower case.
pub open spec fn lowered_text(text: Seq<char>) -> Seq<char> {
    text.map_values(|c: char| lower_of(c))
}

/// Whether two texts are the same but for the case of their letters.
pub open spec fn same_ignoring_case(a: Seq<char>, b: Seq<char>) -> bool {
    lowered_text(a) == lowered_text(b)
}

/// Computes [`lower_of`].
pub fn lower(c: char) -> (low: char)
    ensures
        low == lower_of(c),
{
    if 'A' <= c && c <= 'Z' {
        ((c as u8) + 32) as char
    } else {
        c
    }
}

/// Computes [`lowered_text`].
pub fn lowered(text: &str) -> (low: String)
    ensures
        low@ == lowered_text(text@),
{
    let mut low = String::new();
    for c in it: text.chars()
        invariant
            it.seq() == text@,
            low@ == lowered_text(text@.take(it.index() as int)),
    {
        let ghost before = low@;
        low.push(lower(c));
        assert(low@ =~= lowered_text(text@.take(it.index() + 1)));
    }
    assert(text@.take(text@.len() as int) =~= text@);
    low
}

/// The pieces of `text` between the separators. A text without a separator
/// is one piece, and so is the empty text.
pub open spec fn split_on(text: Seq<char>, separator: char) -> Seq<Seq<char>>
    decreases text.len(),
{
    if text.len() == 0 {
        seq![Seq::<char>::empty()]
    } else {
        let pieces = split_on(text.drop_last(), separator);
        if text.last() == separator {
            pieces.push(Seq::<char>::empty())
        } else {
            pieces.drop_last().push(pieces.last().push(text.last()))
        }
    }
}

/// The pieces with the separator between them.
pub open spec fn joined_with(pieces: Seq<Seq<char>>, separator: char) -> Seq<char>
    decreases pieces.len(),
{
    if pieces.len() == 0 {
        Seq::empty()
    } else if pieces.len() == 1 {
        pieces[0]
    } else {
        joined_with(pieces.drop_last(), separator).push(separator) + pieces.last()
    }
}

/// Computes [`split_on`].
pub fn split(text: &str, separator: char) -> (pieces: Vec<String>)
    ensures
        pieces.deep_view() == split_on(text@, separator),
{
    let mut pieces: Vec<String> = Vec::new();
    let mut piece = String::new();
    assert(text@.take(0) =~= Seq::<char>::empty());
    assert(pieces.deep_view().push(piece@) =~= split_on(text@.take(0), separator));
    for c in it: text.chars()
        invariant
            it.seq() == text@,
            pieces.deep_view().push(piece@) == split_on(text@.take(it.index() as int), separator),
    {
        proof {
            let seen = text@.take(it.index() + 1);
            assert(seen.drop_last() =~= text@.take(it.index() as int));
            assert(seen.last() == c);
        }
        let ghost done = pieces.deep_view();
        let ghost open = piece@;
        if c == separator {
            pieces.push(piece);
            piece = String::new();
            assert(pieces.deep_view() =~= done.push(open));
        } else {
            piece.push(c);
            assert(done.push(open).drop_last() =~= done);
        }
    }
    assert(text@.take(text@.len() as int) =~= text@);
    let ghost done = pieces.deep_view();
    pieces.push(piece);
    assert(pieces.deep_view() =~= done.push(piece@));
    pieces
}

/// Computes [`joined_with`].
pub fn join(pieces: &Vec<String>, separator: char) -> (text: String)
    ensures
        text@ == joined_with(pieces.deep_view(), separator),
{
    let mut text = String::new();
    let mut at: usize = 0;
    assert(pieces.deep_view().take(0) =~= Seq::<Seq<char>>::empty());
    while at < pieces.len()
        invariant
            at <= pieces.len(),
            text@ == joined_with(pieces.deep_view().take(at as int), separator),
        decreases pieces.len() - at,
    {
        proof {
            let seen = pieces.deep_view().take(at + 1);
            assert(seen.drop_last() =~= pieces.deep_view().take(at as int));
            assert(seen.last() == pieces[at as int]@);
            if at == 0 {
                assert(seen[0] == pieces[0]@);
            }
        }
        if at > 0 {
            text.push(separator);
        }
        text.append(pieces[at].as_str());
        at = at + 1;
        assert(text@ =~= joined_with(pieces.deep_view().take(at as int), separator));
    }
    assert(pieces.deep_view().take(pieces.len() as int) =~= pieces.deep_view());
    text
}

/// Whether a piece stands among `pieces`, but for the case of its letters.
pub open spec fn listed(pieces: Seq<Seq<char>>, piece: Seq<char>) -> bool {
    exists|i: int| 0 <= i < pieces.len() && same_ignoring_case(#[trigger] pieces[i], piece)
}

/// The pieces of `existing`, followed by those of `extra` that are not empty
/// and, but for the case of their letters, not there yet.
pub open spec fn union_of(existing: Seq<Seq<char>>, extra: Seq<Seq<char>>) -> Seq<Seq<char>>
    decreases extra.len(),
{
    if extra.len() == 0 {
        existing
    } else {
        let so_far = union_of(existing, extra.drop_last());
        if extra.last().len() == 0 || listed(so_far, extra.last()) {
            so_far
        } else {
            so_far.push(extra.last())
        }
    }
}

/// Two search paths as one: the union of their pieces, those of `existing`
/// first.
pub open spec fn merged_path(existing: Seq<char>, extra: Seq<char>, separator: char) -> Seq<char> {
    joined_with(union_of(split_on(existing, separator), split_on(extra, separator)), separator)
}

/// The pieces with their letters in lower case.
pub open spec fn lowered_pieces(pieces: Seq<Seq<char>>) -> Seq<Seq<char>> {
    pieces.map_values(|piece: Seq<char>| lowered_text(piece))
}

/// Whether a piece in lower case stands among pieces in lower case.
fn is_listed(lows: &Vec<String>, low: &str, Ghost(pieces): Ghost<Seq<Seq<char>>>, Ghost(
    piece,
): Ghost<Seq<char>>) -> (found: bool)
    requires
        lows.len() == pieces.len(),
        lows.deep_view() == lowered_pieces(pieces),
        low@ == lowered_text(piece),
    ensures
        found == listed(pieces, piece),
{
    let mut at: usize = 0;
    while at < lows.len()
        invariant
            at <= lows.len(),
            lows.len() == pieces.len(),
            lows.deep_view() == lowered_pieces(pieces),
            low@ == lowered_text(piece),
            forall|i: int| 0 <= i < at ==> !same_ignoring_case(#[trigger] pieces[i], piece),
        decreases lows.len() - at,
    {
        assert(lows.deep_view()[at as int] == lows[at as int]@);
        assert(lowered_pieces(pieces)[at as int] == lowered_text(pieces[at as int]));
        if str_eq(lows[at].as_str(), low) {
            assert(same_ignoring_case(pieces[at as int], piece));
            return true;
        }
        at = at + 1;
    }
    false
}

/// Computes [`merged_path`].
pub fn merge_path(existing: &str, extra: &str, separator: char) -> (merged: String)
    ensures
        merged@ == merged_path(existing@, extra@, separator),
{
    let mut pieces = split(existing, separator);
    let more = split(extra, separator);
    let mut lows: Vec<String> = Vec::new();
    let mut at: usize = 0;
    while at < pieces.len()
        invariant
            at <= pieces.len(),
            lows.len() == at,
            lows.deep_view() == lowered_pieces(pieces.deep_view().take(at as int)),
        decreases pieces.len() - at,
    {
        let ghost before = lows.deep_view();
        let low = lowered(pieces[at].as_str());
        lows.push(low);
        assert(lows.deep_view() =~= before.push(lowered_text(pieces[at as int]@)));
        assert(pieces.deep_view().take(at + 1) =~= pieces.deep_view().take(at as int).push(
            pieces[at as int]@,
        ));
        at = at + 1;
        assert(lows.deep_view() =~= lowered_pieces(pieces.deep_view().take(at as int)));
    }
    assert(pieces.deep_view().take(pieces.len() as int) =~= pieces.deep_view());
    let ghost own = pieces.deep_view();
    let mut next: usize = 0;
    assert(more.deep_view().take(0) =~= Seq::<Seq<char>>::empty());
    while next < more.len()
        invariant
            next <= more.len(),
            lows.len() == pieces.len(),
            lows.deep_view() == lowered_pieces(pieces.deep_view()),
            pieces.deep_view() == union_of(own, more.deep_view().take(next as int)),
        decreases more.len() - next,
    {
        proof {
            let seen = more.deep_view().take(next + 1);
            assert(seen.drop_last() =~= more.deep_view().take(next as int));
            assert(seen.last() == more[next as int]@);
        }
        let low = lowered(more[next].as_str());
        if !more[next].as_str().is_empty() && !is_listed(
            &lows,
            low.as_str(),
            Ghost(pieces.deep_view()),
            Ghost(more[next as int]@),
        ) {
            let ghost before = pieces.deep_view();
            let ghost lows_before = lows.deep_view();
            pieces.push(more[next].clone());
            lows.push(low);
            assert(pieces.deep_view() =~= before.push(more[next as int]@));
            assert(lows.deep_view() =~= lows_before.push(lowered_text(more[next as int]@)));
            assert(lows.deep_view() =~= lowered_pieces(pieces.deep_view()));
        }
        next = next + 1;
    }
    assert(more.deep_view().take(more.len() as int) =~= more.deep_view());
    join(&pieces, separator)
}

/// The variables with the letters of their names in lower case.
pub open spec fn lowered_names(env: Seq<(Seq<char>, Seq<char>)>) -> Seq<(Seq<char>, Seq<char>)> {
    env.map_values(|entry: (Seq<char>, Seq<char>)| (lowered_text(entry.0), entry.1))
}

/// Where in `env` the variable of this name stands, but for the case of its
/// letters.
pub open spec fn place_of(env: Seq<(Seq<char>, Seq<char>)>, name: Seq<char>) -> Option<int> {
    position(lowered_names(env), lowered_text(name))
}

/// Whether a name is that of the search path.
pub open spec fn is_path_name(name: Seq<char>) -> bool {
    lowered_text(name) == "path"@
}

/// An environment filled up with one variable: a name that is new is added
/// at the end; a name that is there keeps its value, but for the search path,
/// which takes up the pieces it lacks.
pub open spec fn filled(
    env: Seq<(Seq<char>, Seq<char>)>,
    name: Seq<char>,
    value: Seq<char>,
    separator: char,
) -> Seq<(Seq<char>, Seq<char>)> {
    match place_of(env, name) {
        Some(at) => if is_path_name(name) {
            env.update(at, (env[at].0, merged_path(env[at].1, value, separator)))
        } else {
            env
        },
        None => env.push((name, value)),
    }
}

/// The environment of the process filled up from that of the user.
pub open spec fn merged_env(
    own: Seq<(Seq<char>, Seq<char>)>,
    user: Seq<(Seq<char>, Seq<char>)>,
    separator: char,
) -> Seq<(Seq<char>, Seq<char>)>
    decreases user.len(),
{
    if user.len() == 0 {
        own
    } else {
        filled(merged_env(own, user.drop_last(), separator), user.last().0, user.last().1, separator)
    }
}

/// An environment with overrides on top: each replaces the value of the
/// variable of exactly its name, or is added at the end.
pub open spec fn overridden(
    env: Seq<(Seq<char>, Seq<char>)>,
    overrides: Seq<(Seq<char>, Seq<char>)>,
) -> Seq<(Seq<char>, Seq<char>)>
    decreases overrides.len(),
{
    if overrides.len() == 0 {
        env
    } else {
        inserted(overridden(env, overrides.drop_last()), overrides.last().0, overrides.last().1)
    }
}

/// The environment that a launched process gets.
pub open spec fn launch_environment(
    own: Seq<(Seq<char>, Seq<char>)>,
    user: Option<Seq<(Seq<char>, Seq<char>)>>,
    overrides: Seq<(Seq<char>, Seq<char>)>,
    separator: char,
) -> Seq<(Seq<char>, Seq<char>)> {
    overridden(
        match user {
            Some(persisted) => merged_env(own, persisted, separator),
            None => own,
        },
        overrides,
    )
}

/// The place of a variable, but for the case of the letters of its name.
fn find_name(env: &Vec<(String, String)>, name: &str) -> (found: Option<usize>)
    ensures
        match found {
            Some(at) => place_of(env.deep_view(), name@) == Some(at as int) && at < env.len(),
            None => place_of(env.deep_view(), name@) is None,
        },
{
    let low = lowered(name);
    let ghost names = lowered_names(env.deep_view());
    let mut at: usize = 0;
    while at < env.len()
        invariant
            at <= env.len(),
            low@ == lowered_text(name@),
            names == lowered_names(env.deep_view()),
            absent_before(names, low@, at as int),
        decreases env.len() - at,
    {
        let here = lowered(env[at].0.as_str());
        assert(names[at as int].0 == lowered_text(env[at as int].0@));
        if str_eq(here.as_str(), low.as_str()) {
            proof {
                assert(first_at(names, low@, at as int));
                lemma_position_found(names, low@, at as int);
            }
            return Some(at);
        }
        at = at + 1;
    }
    proof {
        lemma_position_none(names, low@);
    }
    None
}

/// Computes [`filled`].
fn fill(env: &mut Vec<(String, String)>, name: &String, value: &String, separator: char)
    ensures
        final(env).deep_view() == filled(old(env).deep_view(), name@, value@, separator),
{
    proof {
        reveal_strlit("path");
    }
    match find_name(env, name.as_str()) {
        Some(at) => {
            let low = lowered(name.as_str());
            if str_eq(low.as_str(), "path") {
                let merged = merge_path(env[at].1.as_str(), value.as_str(), separator);
                let held = env[at].0.clone();
                env[at] = (held, merged);
                assert(env.deep_view() =~= filled(old(env).deep_view(), name@, value@, separator));
            }
        },
        None => {
            env.push((name.clone(), value.clone()));
            assert(env.deep_view() =~= filled(old(env).deep_view(), name@, value@, separator));
        },
    }
}

/// The place of the variable of exactly this name.
fn find_exact(env: &Vec<(String, String)>, name: &str) -> (found: Option<usize>)
    ensures
        match found {
            Some(at) => position(env.deep_view(), name@) == Some(at as int) && at < env.len(),
            None => position(env.deep_view(), name@) is None,
        },
{
    let mut at: usize = 0;
    while at < env.len()
        invariant
            at <= env.len(),
            absent_before(env.deep_view(), name@, at as int),
        decreases env.len() - at,
    {
        assert(env.deep_view()[at as int].0 == env[at as int].0@);
        if str_eq(env[at].0.as_str(), name) {
            proof {
                assert(first_at(env.deep_view(), name@, at as int));
                lemma_position_found(env.deep_view(), name@, at as int);
            }
            return Some(at);
        }
        at = at + 1;
    }
    proof {
        lemma_position_none(env.deep_view(), name@);
    }
    None
}

/// Puts one override on top of an environment.
fn put_override(env: &mut Vec<(String, String)>, name: &String, value: &String)
    ensures
        final(env).deep_view() == inserted(old(env).deep_view(), name@, value@),
{
    match find_exact(env, name.as_str()) {
        Some(at) => {
            env[at] = (name.clone(), value.clone());
            assert(env.deep_view() =~= inserted(old(env).deep_view(), name@, value@));
        },
        None => {
            env.push((name.clone(), value.clone()));
            assert(env.deep_view() =~= inserted(old(env).deep_view(), name@, value@));
        },
    }
}

/// Puts together the environment of a process to launch: `own` is the
/// environment of the supervisor itself, `user` the environment that the
/// platform keeps for the user, where it keeps one, and `overrides` what the
/// configuration sets. `separator` stands between the pieces of a search
/// path.
pub fn reconstruct_environment(
    own: Vec<(String, String)>,
    user: Option<Vec<(String, String)>>,
    overrides: &Vec<(String, String)>,
    separator: char,
) -> (env: Vec<(String, String)>)
    ensures
        env.deep_view() == launch_environment(
            own.deep_view(),
            user.deep_view(),
            overrides.deep_view(),
            separator,
        ),
{
    let mut env = own;
    match user {
        Some(persisted) => {
            let mut at: usize = 0;
            assert(persisted.deep_view().take(0) =~= Seq::<(Seq<char>, Seq<char>)>::empty());
            while at < persisted.len()
                invariant
                    at <= persisted.len(),
                    env.deep_view() == merged_env(
                        own.deep_view(),
                        persisted.deep_view().take(at as int),
                        separator,
                    ),
                decreases persisted.len() - at,
            {
                proof {
                    let seen = persisted.deep_view().take(at + 1);
                    assert(seen.drop_last() =~= persisted.deep_view().take(at as int));
                    assert(seen.last() == persisted.deep_view()[at as int]);
                }
                fill(&mut env, &persisted[at].0, &persisted[at].1, separator);
                at = at + 1;
            }
            assert(persisted.deep_view().take(persisted.len() as int) =~= persisted.deep_view());
        },
        None => {},
    }
    let ghost base = env.deep_view();
    let mut at: usize = 0;
    assert(overrides.deep_view().take(0) =~= Seq::<(Seq<char>, Seq<char>)>::empty());
    while at < overrides.len()
        invariant
            at <= overrides.len(),
            env.deep_view() == overridden(base, overrides.deep_view().take(at as int)),
        decreases overrides.len() - at,
    {
        proof {
            let seen = overrides.deep_view().take(at + 1);
            assert(seen.drop_last() =~= overrides.deep_view().take(at as int));
            assert(seen.last() == overrides.deep_view()[at as int]);
        }
        put_override(&mut env, &overrides[at].0, &overrides[at].1);
        at = at + 1;
    }
    assert(overrides.deep_view().take(overrides.len() as int) =~= overrides.deep_view());
    env
}

/// In the union of two lists of pieces those of the first come first, as
/// they were; and every piece of the second that is not empty stands in the
/// union, but for the case of its letters.
pub proof fn law_union_keeps_existing_first(existing: Seq<Seq<char>>, extra: Seq<Seq<char>>)
    ensures
        existing.is_prefix_of(union_of(existing, extra)),
        forall|i: int|
            0 <= i < extra.len() && (#[trigger] extra[i]).len() > 0 ==> listed(
                union_of(existing, extra),
                extra[i],
            ),
    decreases extra.len(),
{
    if extra.len() > 0 {
        let earlier = extra.drop_last();
        law_union_keeps_existing_first(existing, earlier);
        let so_far = union_of(existing, earlier);
        let all = union_of(existing, extra);
        assert forall|i: int| 0 <= i < extra.len() && (#[trigger] extra[i]).len() > 0 implies listed(
            all,
            extra[i],
        ) by {
            if i < earlier.len() {
                assert(earlier[i] == extra[i]);
                let at = choose|at: int|
                    0 <= at < so_far.len() && same_ignoring_case(#[trigger] so_far[at], extra[i]);
                assert(all[at] == so_far[at]);
            } else if listed(so_far, extra.last()) {
            } else {
                assert(all[so_far.len() as int] == extra[i]);
            }
        }
    }
}

/// Filling up an environment from that of the user keeps every variable
/// that the process has in its place and under its name, and keeps its
/// value unless it is the search path.
pub proof fn law_merge_keeps_own(
    own: Seq<(Seq<char>, Seq<char>)>,
    user: Seq<(Seq<char>, Seq<char>)>,
    separator: char,
)
    ensures
        merged_env(own, user, separator).len() >= own.len(),
        forall|i: int|
            0 <= i < own.len() ==> (#[trigger] merged_env(own, user, separator)[i]).0 == own[i].0
                && (!is_path_name(own[i].0) ==> merged_env(own, user, separator)[i].1
                == own[i].1),
    decreases user.len(),
{
    if user.len() > 0 {
        let earlier = merged_env(own, user.drop_last(), separator);
        law_merge_keeps_own(own, user.drop_last(), separator);
        let name = user.last().0;
        let all = merged_env(own, user, separator);
        lemma_position(lowered_names(earlier), lowered_text(name));
        assert forall|i: int| 0 <= i < own.len() implies (#[trigger] all[i]).0 == own[i].0 && (
        !is_path_name(own[i].0) ==> all[i].1 == own[i].1) by {
            assert(earlier[i].0 == own[i].0);
            match place_of(earlier, name) {
                Some(at) => {
                    if is_path_name(name) && at == i {
                        assert(lowered_names(earlier)[at].0 == lowered_text(earlier[at].0));
                    }
                },
                None => {},
            }
        }
    }
}

/// With overrides on top, the variable of the name of the last override
/// has its value, and a variable of any other name is found as before that
/// override.
pub proof fn law_override_replaces_value(
    env: Seq<(Seq<char>, Seq<char>)>,
    overrides: Seq<(Seq<char>, Seq<char>)>,
)
    requires
        overrides.len() > 0,
    ensures
        lookup(overridden(env, overrides), overrides.last().0) == Some(overrides.last().1),
        forall|name: Seq<char>|
            name != overrides.last().0 ==> #[trigger] lookup(overridden(env, overrides), name)
                == lookup(overridden(env, overrides.drop_last()), name),
{
    lemma_lookup_inserted(
        overridden(env, overrides.drop_last()),
        overrides.last().0,
        overrides.last().1,
    );
}

} // verus!
