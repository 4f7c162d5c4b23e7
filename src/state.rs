use crate::directory::{get_all_bangs, lists_names, BangDirectory};
use crate::model::{Bang, BangView};
use crate::policy::{add_custom_bang, as_custom, delete_custom_bang, BangError};
use crate::resolver::{resolve, resolved};
use vstd::prelude::*;

verus! {

/// The live directory that every command reads and writes. The process
/// holds one, behind a lock taken for one call at a time.
pub struct BangState {
    bangs: BangDirectory,
}

impl View for BangState {
    type V = Map<Seq<char>, BangView>;

    closed spec fn view(&self) -> Map<Seq<char>, BangView> {
        self.bangs@
    }
}

impl BangState {
    pub closed spec fn wf(&self) -> bool {
        self.bangs.wf()
    }

    /// An empty state, as at process start before the directory is loaded.
    pub fn new() -> (r: BangState)
        ensures
            r.wf(),
            r@ == Map::<Seq<char>, BangView>::empty(),
    {
        BangState { bangs: BangDirectory::new() }
    }

    pub fn bangs(&self) -> (r: &BangDirectory)
        requires
            self.wf(),
        ensures
            r.wf(),
            r@ == self@,
    {
        &self.bangs
    }

    /// Swaps in a freshly loaded or refreshed directory.
    pub fn replace(&mut self, bangs: BangDirectory)
        requires
            bangs.wf(),
        ensures
            final(self).wf(),
            final(self)@ == bangs@,
    {
        self.bangs = bangs;
    }

    /// The URL to open for a typed query.
    pub fn search(&self, query: &str) -> (r: String)
        requires
            self.wf(),
        ensures
            r@ == resolved(self@, query@),
    {
        resolve(&self.bangs, query)
    }

    /// Every bang as (trigger, display name).
    pub fn available_bangs(&self) -> (r: Vec<(String, String)>)
        requires
            self.wf(),
        ensures
            lists_names(r@, self@),
    {
        get_all_bangs(&self.bangs)
    }

    /// Adds or replaces a user-defined bang here and in the user's set.
    pub fn add_custom_bang(&mut self, user_bangs: &mut BangDirectory, bang: Bang)
        requires
            old(self).wf(),
            old(user_bangs).wf(),
        ensures
            final(self).wf(),
            final(user_bangs).wf(),
            final(self)@ == old(self)@.insert(bang.id@, as_custom(bang@)),
            final(user_bangs)@ == old(user_bangs)@.insert(bang.id@, as_custom(bang@)),
    {
        add_custom_bang(&mut self.bangs, user_bangs, bang);
    }

    /// Deletes a user-defined bang here and in the user's set.
    pub fn delete_custom_bang(&mut self, user_bangs: &mut BangDirectory, bang_id: &str) -> (r:
        Result<(), BangError>)
        requires
            old(self).wf(),
            old(user_bangs).wf(),
        ensures
            final(self).wf(),
            final(user_bangs).wf(),
            !old(self)@.contains_key(bang_id@) <==> r == Err::<(), BangError>(
                BangError::NotFound,
            ),
            old(self)@.contains_key(bang_id@) && !old(self)@[bang_id@].is_custom <==> r == Err::<
                (),
                BangError,
            >(BangError::CannotDeleteBuiltin),
            r is Err ==> final(self)@ == old(self)@ && final(user_bangs)@ == old(user_bangs)@,
            r is Ok ==> final(self)@ == old(self)@.remove(bang_id@) && final(user_bangs)@ == old(
                user_bangs,
            )@.remove(bang_id@),
    {
        delete_custom_bang(&mut self.bangs, user_bangs, bang_id)
    }
}

} // verus!
