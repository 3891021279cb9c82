//! The key collector: flattens the access roster and the shared-service key
//! into one ordered list of encoded public keys.
use vstd::prelude::*;

verus! {

/// A principal of the access roster, with its base64-encoded public keys.
pub struct User {
    pub login: String,
    pub gpg_keys_base64: Vec<String>,
}

/// The access roster: `{ "users": [ ... ] }`.
pub struct Roster {
    pub users: Vec<User>,
}

/// What was supplied as the roster: nothing, a parsed roster, or text that
/// could not be parsed as one (with the parser's message).
pub enum RosterInput {
    Absent,
    Parsed(Roster),
    Malformed(String),
}

/// The roster was present but malformed.
pub struct CollectionError {
    pub detail: String,
}

/// The views of a sequence of strings.
pub open spec fn texts(v: Seq<String>) -> Seq<Seq<char>> {
    v.map_values(|s: String| s@)
}

/// The keys of one user, as text.
pub open spec fn keys_of(u: User) -> Seq<Seq<char>> {
    texts(u.gpg_keys_base64@)
}

/// Every user's keys, user after user, each user's keys in their own order.
pub open spec fn roster_keys(users: Seq<User>) -> Seq<Seq<char>>
    decreases users.len(),
{
    if users.len() == 0 {
        Seq::empty()
    } else {
        roster_keys(users.drop_last()) + keys_of(users.last())
    }
}

/// The number of keys that the users hold together.
pub open spec fn key_count(users: Seq<User>) -> nat
    decreases users.len(),
{
    if users.len() == 0 {
        0
    } else {
        key_count(users.drop_last()) + users.last().gpg_keys_base64@.len()
    }
}

/// The shared-service key as a list: empty when the key is empty.
pub open spec fn shared_keys(shared: Seq<char>) -> Seq<Seq<char>> {
    if shared.len() == 0 {
        Seq::empty()
    } else {
        seq![shared]
    }
}

/// The users of a roster input; none unless it was parsed.
pub open spec fn input_users(input: RosterInput) -> Seq<User> {
    match input {
        RosterInput::Parsed(r) => r.users@,
        _ => Seq::empty(),
    }
}

/// The collected key list for a roster input and a shared-service key.
pub open spec fn collected_keys(input: RosterInput, shared: Seq<char>) -> Seq<Seq<char>> {
    roster_keys(input_users(input)) + shared_keys(shared)
}

/// Gathers every roster key, in user-then-key order, followed by the
/// shared-service key when it is not empty. Duplicates are kept.
/// A malformed roster is an error.
pub fn collect_public_keys(roster: &RosterInput, shared_key: &str) -> (r: Result<Vec<String>, CollectionError>)
    ensures
        r is Err <==> roster is Malformed,
        r matches Ok(keys) ==> texts(keys@) == collected_keys(*roster, shared_key@),
{
    let mut keys: Vec<String> = Vec::new();
    match roster {
        RosterInput::Malformed(detail) => {
            return Err(CollectionError { detail: detail.clone() });
        },
        RosterInput::Absent => {},
        RosterInput::Parsed(parsed) => {
            let users = &parsed.users;
            let mut i: usize = 0;
            while i < users.len()
                invariant
                    i <= users@.len(),
                    texts(keys@) == roster_keys(users@.take(i as int)),
                decreases users@.len() - i,
            {
                let user = &users[i];
                let ghost before = keys@;
                let mut j: usize = 0;
                while j < user.gpg_keys_base64.len()
                    invariant
                        i < users@.len(),
                        *user == users@[i as int],
                        j <= user.gpg_keys_base64@.len(),
                        texts(keys@) == texts(before) + keys_of(*user).take(j as int),
                    decreases user.gpg_keys_base64@.len() - j,
                {
                    let ghost prev = keys@;
                    keys.push(user.gpg_keys_base64[j].clone());
                    assert(keys@ == prev.push(user.gpg_keys_base64@[j as int]));
                    assert(texts(keys@) =~= texts(prev).push(keys_of(*user)[j as int]));
                    assert(texts(keys@) =~= texts(before) + keys_of(*user).take(j + 1));
                    j += 1;
                }
                assert(users@.take(i + 1).drop_last() =~= users@.take(i as int));
                assert(keys_of(*user).take(j as int) =~= keys_of(*user));
                i += 1;
            }
            assert(users@.take(i as int) =~= users@);
        },
    }
    let ghost gathered = keys@;
    if !shared_key.is_empty() {
        keys.push(shared_key.to_owned());
        assert(texts(keys@) =~= texts(gathered).push(shared_key@));
    }
    assert(texts(keys@) =~= collected_keys(*roster, shared_key@));
    Ok(keys)
}

proof fn lemma_roster_keys_len(users: Seq<User>)
    ensures
        roster_keys(users).len() == key_count(users),
    decreases users.len(),
{
    if users.len() > 0 {
        lemma_roster_keys_len(users.drop_last());
    }
}

proof fn lemma_roster_keys_prefix(users: Seq<User>, k: int)
    requires
        0 <= k <= users.len(),
    ensures
        roster_keys(users.take(k)).len() <= roster_keys(users).len(),
        roster_keys(users).take(roster_keys(users.take(k)).len() as int) == roster_keys(users.take(k)),
    decreases users.len(),
{
    if k == users.len() {
        assert(users.take(k) =~= users);
        assert(roster_keys(users).take(roster_keys(users).len() as int) =~= roster_keys(users));
    } else {
        let rest = users.drop_last();
        assert(rest.take(k) =~= users.take(k));
        lemma_roster_keys_prefix(rest, k);
        let n = roster_keys(users.take(k)).len() as int;
        assert(roster_keys(users).take(n) =~= roster_keys(rest).take(n));
    }
}

/// The collected list holds exactly the roster's keys, plus one for a
/// non-empty shared-service key, and keeps user-then-key order: key `j` of
/// user `i` stands after all keys of the users before it. The shared-service
/// key, when there is one, comes last.
pub proof fn lemma_collected_keys_layout(input: RosterInput, shared: Seq<char>)
    ensures
        collected_keys(input, shared).len() == key_count(input_users(input)) + (if shared.len() == 0 { 0nat } else { 1nat }),
        forall|i: int, j: int|
            0 <= i < input_users(input).len() && 0 <= j < input_users(input)[i].gpg_keys_base64@.len()
                ==> #[trigger] collected_keys(input, shared)[key_count(input_users(input).take(i)) + j]
                    == input_users(input)[i].gpg_keys_base64@[j]@,
        shared.len() > 0 ==> collected_keys(input, shared).last() == shared,
{
    let users = input_users(input);
    lemma_roster_keys_len(users);
    assert forall|i: int, j: int|
        0 <= i < users.len() && 0 <= j < users[i].gpg_keys_base64@.len()
            implies #[trigger] collected_keys(input, shared)[key_count(users.take(i)) + j]
                == users[i].gpg_keys_base64@[j]@ by {
        let upto = users.take(i + 1);
        assert(upto.drop_last() =~= users.take(i));
        lemma_roster_keys_len(upto);
        lemma_roster_keys_len(users.take(i));
        lemma_roster_keys_prefix(users, i + 1);
        let n = roster_keys(upto).len() as int;
        assert(roster_keys(users)[key_count(users.take(i)) + j] == roster_keys(users).take(n)[key_count(users.take(i)) + j]);
    }
}

/// With no roster and an empty shared-service key the collected list is
/// empty.
pub proof fn lemma_nothing_to_collect(shared: Seq<char>)
    requires
        shared.len() == 0,
    ensures
        collected_keys(RosterInput::Absent, shared) == Seq::<Seq<char>>::empty(),
{
    assert(collected_keys(RosterInput::Absent, shared) =~= Seq::<Seq<char>>::empty());
}

} // verus!
