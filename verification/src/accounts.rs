//! Profiles: one per tracked game account, each launched with its own isolated client settings
//! profile. Profile metadata (id and label) is not secret; the refresh tokens are kept apart in
//! the operating system's credential store.

use vstd::prelude::*;

verus! {

/// The lowercase hexadecimal digit of `d`, below 16.
pub open spec fn hex_lower(d: nat) -> char {
    seq!['0', '1', '2', '3', '4', '5', '6', '7', '8', '9', 'a', 'b', 'c', 'd', 'e', 'f'][d as int]
}

/// The last `count` hexadecimal digits of `n`, most significant first, with leading zeros.
pub open spec fn hex_digits(n: nat, count: nat) -> Seq<char>
    decreases count,
{
    if count == 0 {
        Seq::empty()
    } else {
        hex_digits(n / 16, (count - 1) as nat).push(hex_lower(n % 16))
    }
}

/// The hyphenated lowercase text of a UUID given by its 128-bit value: its 32 hexadecimal
/// digits, most significant first, in groups of 8, 4, 4, 4 and 12 joined by `-`.
pub open spec fn uuid_text(id: u128) -> Seq<char> {
    let d = hex_digits(id as nat, 32);
    d.subrange(0, 8) + seq!['-'] + d.subrange(8, 12) + seq!['-'] + d.subrange(12, 16) + seq!['-']
        + d.subrange(16, 20) + seq!['-'] + d.subrange(20, 32)
}

/// `hex_digits` gives `count` digits.
pub proof fn lemma_hex_digits_len(n: nat, count: nat)
    ensures
        hex_digits(n, count).len() == count,
    decreases count,
{
    if count > 0 {
        lemma_hex_digits_len(n / 16, (count - 1) as nat);
    }
}

/// A UUID's text has 36 characters.
pub proof fn lemma_uuid_text_len(id: u128)
    ensures
        uuid_text(id).len() == 36,
{
    lemma_hex_digits_len(id as nat, 32);
}

/// Calls `Uuid::from_u128(id).to_string()`: the 16 big-endian bytes of `id`, written as
/// lowercase hexadecimal digits in groups of 8, 4, 4, 4 and 12 joined by `-` (`uuid_text`).
#[verifier::external_body]
pub(crate) fn uuid_string(id: u128) -> (r: String)
    ensures
        r@ == uuid_text(id),
{
    uuid::Uuid::from_u128(id).to_string()
}

/// The key under which the client keeps profile `id`'s settings: the UUID's text.
pub fn profile_key(id: u128) -> (r: String)
    ensures
        r@ == uuid_text(id),
{
    uuid_string(id)
}

/// Calls `Uuid::new_v4().as_u128()`: a fresh random (version 4) UUID from the operating
/// system's random source. Which value comes out is chance, so nothing is stated of it, not even
/// that it differs from earlier ones.
#[verifier::external_body]
fn random_uuid() -> (r: u128) {
    uuid::Uuid::new_v4().as_u128()
}

/// One tracked game account.
#[derive(Debug, Clone, PartialEq, Eq)]
pub struct Profile {
    /// The profile's UUID, as its 128-bit value.
    pub id: u128,
    /// The user's own label for this profile (not the account's display name).
    pub display_name: String,
}

/// What a [`Profile`] holds.
pub struct ProfileView {
    pub id: u128,
    pub display_name: Seq<char>,
}

impl View for Profile {
    type V = ProfileView;

    open spec fn view(&self) -> ProfileView {
        ProfileView { id: self.id, display_name: self.display_name@ }
    }
}

impl Profile {
    /// A new profile with the given label and a fresh random id.
    pub fn new(display_name: String) -> (r: Profile)
        ensures
            r.display_name@ == display_name@,
    {
        Profile { id: random_uuid(), display_name }
    }
}

/// The known profiles, in the order they were added.
#[derive(Debug, PartialEq, Eq)]
pub struct ProfileRegistry {
    pub profiles: Vec<Profile>,
}

/// The views of a sequence of profiles.
pub open spec fn profile_views(ps: Seq<Profile>) -> Seq<ProfileView> {
    Seq::new(ps.len(), |i: int| ps[i]@)
}

/// `ps` without the profiles whose id is `id`, the others kept in order.
pub open spec fn without_id(ps: Seq<ProfileView>, id: u128) -> Seq<ProfileView>
    decreases ps.len(),
{
    if ps.len() == 0 {
        ps
    } else {
        let rest = without_id(ps.drop_last(), id);
        if ps.last().id == id {
            rest
        } else {
            rest.push(ps.last())
        }
    }
}

/// Whether some profile of `ps` has id `id`.
pub open spec fn has_id(ps: Seq<ProfileView>, id: u128) -> bool {
    exists|i: int| 0 <= i < ps.len() && #[trigger] ps[i].id == id
}

impl View for ProfileRegistry {
    type V = Seq<ProfileView>;

    open spec fn view(&self) -> Seq<ProfileView> {
        profile_views(self.profiles@)
    }
}

impl ProfileRegistry {
    /// An empty registry.
    pub fn new() -> (r: ProfileRegistry)
        ensures
            r@ == Seq::<ProfileView>::empty(),
    {
        let r = ProfileRegistry { profiles: Vec::new() };
        assert(r@ =~= Seq::<ProfileView>::empty());
        r
    }

    /// Adds a profile with the given label and a fresh id at the end, and returns it.
    pub fn add(&mut self, display_name: String) -> (r: &Profile)
        ensures
            final(self)@ == old(self)@.push(r@),
            r.display_name@ == display_name@,
    {
        let p = Profile::new(display_name);
        let ghost pv = p@;
        let ghost before = self@;
        self.profiles.push(p);
        assert(self@ =~= before.push(pv));
        let n = self.profiles.len();
        &self.profiles[n - 1]
    }

    /// Removes every profile whose id is `id`, keeping the others in order.
    pub fn remove(&mut self, id: u128)
        ensures
            final(self)@ == without_id(old(self)@, id),
    {
        let ghost all = self@;
        let mut kept: Vec<Profile> = Vec::new();
        let mut i: usize = 0;
        assert(all.take(0) =~= Seq::<ProfileView>::empty());
        assert(profile_views(kept@) =~= Seq::<ProfileView>::empty());
        while i < self.profiles.len()
            invariant
                i <= self.profiles.len(),
                all == profile_views(self.profiles@),
                profile_views(kept@) == without_id(all.take(i as int), id),
            decreases self.profiles.len() - i,
        {
            assert(all.take(i + 1).drop_last() =~= all.take(i as int));
            assert(all.take(i + 1).last() == self.profiles@[i as int]@);
            if self.profiles[i].id != id {
                let ghost before = kept@;
                let p = Profile {
                    id: self.profiles[i].id,
                    display_name: self.profiles[i].display_name.clone(),
                };
                kept.push(p);
                assert(profile_views(kept@) =~= profile_views(before).push(self.profiles@[i as int]@));
            }
            i += 1;
        }
        assert(all.take(i as int) =~= all);
        self.profiles = kept;
    }
}

impl Default for ProfileRegistry {
    /// An empty registry.
    fn default() -> (r: ProfileRegistry)
        ensures
            r@ == Seq::<ProfileView>::empty(),
    {
        ProfileRegistry::new()
    }
}

// ---------------------------------------------------------------------------------------------
// Laws
// ---------------------------------------------------------------------------------------------

/// After removing `id`, no profile has it.
pub proof fn lemma_removed_id_absent(ps: Seq<ProfileView>, id: u128)
    ensures
        !has_id(without_id(ps, id), id),
    decreases ps.len(),
{
    if ps.len() > 0 {
        lemma_removed_id_absent(ps.drop_last(), id);
    }
}

/// Removing an id that no profile has leaves the profiles as they are.
pub proof fn lemma_remove_absent_id(ps: Seq<ProfileView>, id: u128)
    requires
        !has_id(ps, id),
    ensures
        without_id(ps, id) == ps,
    decreases ps.len(),
{
    if ps.len() > 0 {
        assert(!has_id(ps.drop_last(), id)) by {
            if has_id(ps.drop_last(), id) {
                let i = choose|i: int| 0 <= i < ps.drop_last().len() && #[trigger] ps.drop_last()[i].id == id;
                assert(ps[i].id == id);
            }
        }
        lemma_remove_absent_id(ps.drop_last(), id);
        assert(ps.last().id != id) by {
            assert(ps[ps.len() - 1].id == ps.last().id);
        }
        assert(ps.drop_last().push(ps.last()) =~= ps);
    }
}

/// Adding a profile and then removing its id gives back the registry it was added to, when no
/// profile had that id before (a fresh random UUID collides with none in practice).
pub proof fn lemma_add_then_remove(before: Seq<ProfileView>, added: ProfileView)
    requires
        !has_id(before, added.id),
    ensures
        without_id(before.push(added), added.id) == before,
{
    assert(before.push(added).drop_last() =~= before);
    lemma_remove_absent_id(before, added.id);
}

/// Removing the same id twice is removing it once.
pub proof fn lemma_remove_idempotent(ps: Seq<ProfileView>, id: u128)
    ensures
        without_id(without_id(ps, id), id) == without_id(ps, id),
{
    lemma_removed_id_absent(ps, id);
    lemma_remove_absent_id(without_id(ps, id), id);
}

/// Removing an id keeps every profile with another id: each one that was there is still there.
pub proof fn lemma_remove_keeps_others(ps: Seq<ProfileView>, id: u128, i: int)
    requires
        0 <= i < ps.len(),
        ps[i].id != id,
    ensures
        without_id(ps, id).contains(ps[i]),
    decreases ps.len(),
{
    if i == ps.len() - 1 {
        let rest = without_id(ps.drop_last(), id);
        assert(without_id(ps, id) == rest.push(ps.last()));
        assert(rest.push(ps.last())[rest.len() as int] == ps[i]);
    } else {
        lemma_remove_keeps_others(ps.drop_last(), id, i);
        let rest = without_id(ps.drop_last(), id);
        assert(ps.drop_last()[i] == ps[i]);
        let k = choose|k: int| 0 <= k < rest.len() && rest[k] == ps[i];
        if ps.last().id != id {
            assert(rest.push(ps.last())[k] == ps[i]);
        }
    }
}

} // verus!
