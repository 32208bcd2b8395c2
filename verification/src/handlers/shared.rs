//! One fetch per post at a time: whoever asks for a post that is being fetched
//! waits for that fetch.
use crate::table::Table;
use vstd::prelude::*;

verus! {

/// The posts that are being fetched.
#[derive(Debug)]
pub struct InFlight {
    pub keys: Table<String, ()>,
}

impl View for InFlight {
    type V = Set<Seq<char>>;

    open spec fn view(&self) -> Set<Seq<char>> {
        self.keys@.dom()
    }
}

impl Default for InFlight {
    fn default() -> (r: InFlight)
        ensures
            r.wf(),
            r@ == Set::<Seq<char>>::empty(),
    {
        let r = InFlight { keys: Table::new() };
        assert(r@ =~= Set::<Seq<char>>::empty());
        r
    }
}

/// Who fetches a post.
#[derive(Clone, Copy, Debug, PartialEq, Eq, Structural)]
pub enum Role {
    /// The caller fetches it, and tells the others.
    Fetch,
    /// Somebody does already.
    Wait,
}

pub open spec fn role(s: Set<Seq<char>>, key: Seq<char>) -> Role {
    if s.contains(key) {
        Role::Wait
    } else {
        Role::Fetch
    }
}

impl InFlight {
    pub open spec fn wf(&self) -> bool {
        self.keys.wf()
    }

    /// Asks for a post.
    pub fn join(&mut self, key: &str) -> (r: Role)
        requires
            old(self).wf(),
        ensures
            final(self).wf(),
            r == role(old(self)@, key@),
            final(self)@ == old(self)@.insert(key@),
    {
        let ghost before = self@;
        let name = key.to_owned();
        if self.keys.contains_key(&name) {
            assert(before.insert(key@) =~= before);
            Role::Wait
        } else {
            self.keys.insert(name, ());
            assert(self@ =~= before.insert(key@));
            Role::Fetch
        }
    }

    /// Ends the fetch of a post, however it went.
    pub fn finish(&mut self, key: &str)
        requires
            old(self).wf(),
        ensures
            final(self).wf(),
            final(self)@ == old(self)@.remove(key@),
    {
        let ghost before = self@;
        let _ = self.keys.remove(&key.to_owned());
        assert(self@ =~= before.remove(key@));
    }
}

/// While a post is being fetched nobody else fetches it; once the fetch ended the
/// next one who asks does. Other posts are not concerned.
pub proof fn law_one_fetch_at_a_time(s: Set<Seq<char>>, key: Seq<char>, other: Seq<char>)
    ensures
        role(s.insert(key), key) == Role::Wait,
        role(s.remove(key), key) == Role::Fetch,
        other != key ==> role(s.insert(key), other) == role(s, other) && role(s.remove(key), other)
            == role(s, other),
{
}

} // verus!
