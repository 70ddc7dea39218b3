//! Conversation names. A public room is named by its own name, a private
//! conversation between two users by `dm:<first>:<second>` (the two names in
//! order, so both sides reach the same conversation), a group room by `group:<name>`.

use vstd::prelude::*;
use crate::text::{
    lemma_less_trichotomy, lemma_split_concat, lemma_split_single, char_seq_less, has_prefix, less_than, split, split_on, starts_with, str_eq, string_views,
    strip_prefix, trim, trimmed,
};

verus! {

/// The prefix of private conversation names.
pub open spec fn dm_prefix() -> Seq<char> {
    seq!['d', 'm', ':']
}

/// The prefix of group room names.
pub open spec fn group_prefix() -> Seq<char> {
    seq!['g', 'r', 'o', 'u', 'p', ':']
}

/// `room` names a private conversation.
pub open spec fn is_private_spec(room: Seq<char>) -> bool {
    has_prefix(room, dm_prefix())
}

/// The pieces of `pieces` that are not empty, in order.
pub open spec fn non_empty(pieces: Seq<Seq<char>>) -> Seq<Seq<char>>
    decreases pieces.len(),
{
    if pieces.len() == 0 {
        Seq::empty()
    } else {
        let rest = non_empty(pieces.drop_last());
        if pieces.last().len() > 0 {
            rest.push(pieces.last())
        } else {
            rest
        }
    }
}

/// The participants named by a private conversation: the non-empty pieces between
/// the colons after `dm:`; none for any other room.
pub open spec fn participants_spec(room: Seq<char>) -> Seq<Seq<char>> {
    if is_private_spec(room) {
        non_empty(split_on(room.skip(3), ':'))
    } else {
        Seq::empty()
    }
}

/// The first piece that differs from `user`.
pub open spec fn first_other(pieces: Seq<Seq<char>>, user: Seq<char>) -> Option<Seq<char>>
    decreases pieces.len(),
{
    if pieces.len() == 0 {
        None
    } else if pieces[0] != user {
        Some(pieces[0])
    } else {
        first_other(pieces.drop_first(), user)
    }
}

/// The group a room belongs to: the name after `group:`, unless it is blank.
pub open spec fn group_name_spec(room: Seq<char>) -> Option<Seq<char>> {
    if has_prefix(room, group_prefix()) && trimmed(room.skip(6)).len() > 0 {
        Some(room.skip(6))
    } else {
        None
    }
}

/// The name of the private conversation between `left` and `right`: both trimmed,
/// the smaller first.
pub open spec fn private_room_spec(left: Seq<char>, right: Seq<char>) -> Seq<char> {
    let a = trimmed(left);
    let b = trimmed(right);
    if char_seq_less(b, a) {
        dm_prefix() + b + seq![':'] + a
    } else {
        dm_prefix() + a + seq![':'] + b
    }
}

/// The other side of a private conversation, as `username` sees it: the first piece
/// after `dm:` that is not `username`, or nothing.
pub open spec fn other_participant_spec(username: Seq<char>, room: Seq<char>) -> Seq<char> {
    if is_private_spec(room) {
        match first_other(split_on(room.skip(3), ':'), username) {
            Some(p) => p,
            None => Seq::empty(),
        }
    } else {
        Seq::empty()
    }
}

/// How a conversation is shown to `username`: `@other` for a private one, `#room` otherwise.
pub open spec fn display_room_spec(username: Seq<char>, room: Seq<char>) -> Seq<char> {
    if is_private_spec(room) {
        match first_other(split_on(room.skip(3), ':'), username) {
            Some(p) => seq!['@'] + p,
            None => seq!['@'] + username,
        }
    } else {
        seq!['#'] + room
    }
}

/// The conversation a `/switch` target names: `@user` opens the private
/// conversation with `user`, anything else is a public room.
pub open spec fn normalize_spec(username: Seq<char>, target: Seq<char>) -> Seq<char> {
    if has_prefix(target, seq!['@']) {
        private_room_spec(username, trimmed(target.skip(1)))
    } else {
        target
    }
}

/// Whether `room` names a private conversation.
pub fn is_private_room(room: &str) -> (r: bool)
    ensures
        r == is_private_spec(room@),
{
    proof {
        reveal_strlit("dm:");
    }
    starts_with(room, "dm:")
}

/// The group that `room` belongs to, if it is a group room with a name that is not blank.
pub fn group_room_name(room: &str) -> (r: Option<&str>)
    ensures
        r matches Some(n) ==> n@ == room@.skip(6),
        r is Some <==> group_name_spec(room@) is Some,
{
    proof {
        reveal_strlit("group:");
    }
    match strip_prefix(room, "group:") {
        Some(name) => {
            if trim(name).is_empty() {
                None
            } else {
                Some(name)
            }
        },
        None => None,
    }
}

/// The participants of a private conversation, in the order its name gives them.
pub fn private_room_participants(room: &str) -> (r: Vec<String>)
    ensures
        string_views(r@) == participants_spec(room@),
{
    proof {
        reveal_strlit("dm:");
    }
    let rest = match strip_prefix(room, "dm:") {
        Some(rest) => rest,
        None => {
            let r: Vec<String> = Vec::new();
            assert(string_views(r@) =~= Seq::<Seq<char>>::empty());
            return r;
        },
    };
    let pieces = split(rest, ':');
    let ghost pv = string_views(pieces@);
    let mut r: Vec<String> = Vec::new();
    let mut i: usize = 0;
    assert(pv.take(0) =~= Seq::<Seq<char>>::empty());
    while i < pieces.len()
        invariant
            pv == string_views(pieces@),
            pv == split_on(room@.skip(3), ':'),
            i <= pieces.len(),
            string_views(r@) =~= non_empty(pv.take(i as int)),
        decreases pieces.len() - i,
    {
        assert(pv.take(i + 1).drop_last() =~= pv.take(i as int));
        assert(pv[i as int] == pieces@[i as int]@);
        if !pieces[i].as_str().is_empty() {
            let ghost before = r@;
            r.push(pieces[i].clone());
            assert(string_views(r@) =~= string_views(before).push(pv[i as int]));
        }
        i = i + 1;
    }
    assert(pv.take(pieces.len() as int) =~= pv);
    r
}

/// Whether `user` is one of the participants of the private conversation `room`.
pub fn private_room_contains_user(room: &str, user: &str) -> (r: bool)
    ensures
        r == participants_spec(room@).contains(user@),
{
    let ps = private_room_participants(room);
    let ghost pv = string_views(ps@);
    let mut i: usize = 0;
    while i < ps.len()
        invariant
            pv == string_views(ps@),
            pv == participants_spec(room@),
            i <= ps.len(),
            forall|j: int| 0 <= j < i ==> pv[j] != user@,
        decreases ps.len() - i,
    {
        if str_eq(ps[i].as_str(), user) {
            assert(pv[i as int] == user@);
            return true;
        }
        i = i + 1;
    }
    false
}

/// The first of `pieces` that is not `user`.
fn find_other(pieces: &Vec<String>, user: &str) -> (r: Option<usize>)
    ensures
        match r {
            Some(i) => i < pieces.len() && first_other(string_views(pieces@), user@) == Some(
                pieces@[i as int]@,
            ),
            None => first_other(string_views(pieces@), user@) is None,
        },
{
    let ghost pv = string_views(pieces@);
    let mut i: usize = 0;
    assert(pv.skip(0) =~= pv);
    while i < pieces.len()
        invariant
            pv == string_views(pieces@),
            i <= pieces.len(),
            first_other(pv, user@) == first_other(pv.skip(i as int), user@),
        decreases pieces.len() - i,
    {
        assert(pv.skip(i as int)[0] == pv[i as int]);
        if !str_eq(pieces[i].as_str(), user) {
            return Some(i);
        }
        assert(pv.skip(i as int).drop_first() =~= pv.skip(i + 1));
        i = i + 1;
    }
    assert(pv.skip(i as int) =~= Seq::<Seq<char>>::empty());
    None
}

/// The name of the private conversation between `left` and `right`.
pub fn private_room_id(left: &str, right: &str) -> (r: String)
    ensures
        r@ == private_room_spec(left@, right@),
{
    proof {
        reveal_strlit("dm:");
        reveal_strlit(":");
    }
    let a = trim(left);
    let b = trim(right);
    let (first, second) = if less_than(b, a) {
        (b, a)
    } else {
        (a, b)
    };
    let mut r = String::new();
    r.append("dm:");
    r.append(first);
    r.append(":");
    r.append(second);
    r
}

/// The other side of the private conversation `room` as `username` sees it, or the
/// empty string.
pub fn other_private_participant(username: &str, room: &str) -> (r: String)
    ensures
        r@ == other_participant_spec(username@, room@),
{
    proof {
        reveal_strlit("dm:");
    }
    match strip_prefix(room, "dm:") {
        Some(rest) => {
            let pieces = split(rest, ':');
            match find_other(&pieces, username) {
                Some(i) => pieces[i].clone(),
                None => String::new(),
            }
        },
        None => String::new(),
    }
}

/// How the conversation `room` is shown to `username`.
pub fn display_room(username: &str, room: &str) -> (r: String)
    ensures
        r@ == display_room_spec(username@, room@),
{
    proof {
        reveal_strlit("dm:");
        reveal_strlit("@");
        reveal_strlit("#");
    }
    let mut r = String::new();
    match strip_prefix(room, "dm:") {
        Some(rest) => {
            let pieces = split(rest, ':');
            r.append("@");
            match find_other(&pieces, username) {
                Some(i) => r.append(pieces[i].as_str()),
                None => r.append(username),
            }
        },
        None => {
            r.append("#");
            r.append(room);
        },
    }
    r
}

/// The conversation that a `/switch` target names.
pub fn normalize_conversation(username: &str, target: &str) -> (r: String)
    ensures
        r@ == normalize_spec(username@, target@),
{
    proof {
        reveal_strlit("@");
    }
    match strip_prefix(target, "@") {
        Some(private_target) => private_room_id(username, trim(private_target)),
        None => target.to_owned(),
    }
}

/// Both sides name the same private conversation, whichever of them opens it.
pub proof fn law_private_room_symmetric(left: Seq<char>, right: Seq<char>)
    ensures
        private_room_spec(left, right) == private_room_spec(right, left),
{
    lemma_less_trichotomy(trimmed(left), trimmed(right));
}

/// The private conversation between two names (trimmed, not blank, without `:`) is a
/// private room whose participants are exactly those two, in order.
pub proof fn law_private_room_participants(left: Seq<char>, right: Seq<char>)
    requires
        trimmed(left).len() > 0,
        trimmed(right).len() > 0,
        !trimmed(left).contains(':'),
        !trimmed(right).contains(':'),
    ensures
        is_private_spec(private_room_spec(left, right)),
        participants_spec(private_room_spec(left, right)).contains(trimmed(left)),
        participants_spec(private_room_spec(left, right)).contains(trimmed(right)),
        participants_spec(private_room_spec(left, right)).len() == 2,
{
    let a = trimmed(left);
    let b = trimmed(right);
    let (p, q) = if char_seq_less(b, a) {
        (b, a)
    } else {
        (a, b)
    };
    let room = private_room_spec(left, right);
    assert(room == dm_prefix() + p + seq![':'] + q);
    assert(room.take(3) =~= dm_prefix());
    assert(room.skip(3) =~= p + seq![':'] + q);
    lemma_split_concat(p, q, ':');
    lemma_split_single(q, ':');
    let pieces = split_on(room.skip(3), ':');
    assert(pieces =~= seq![p, q]);
    assert(pieces.drop_last() =~= seq![p]);
    assert(seq![p].drop_last() =~= Seq::<Seq<char>>::empty());
    assert(non_empty(Seq::<Seq<char>>::empty()) =~= Seq::<Seq<char>>::empty());
    assert(seq![p].last() == p);
    assert(non_empty(seq![p]) =~= seq![p]);
    assert(pieces.last() == q);
    assert(non_empty(pieces) =~= seq![p, q]);
    assert(seq![p, q][0] == p);
    assert(seq![p, q][1] == q);
}

} // verus!
