//! A cache of loaded resources: what was loaded once is kept, shared, and
//! not loaded again.

use vstd::prelude::*;
use vstd::std_specs::hash::{
    axiom_contains_deref_key, axiom_maps_deref_key_to_value,
    axiom_random_state_builds_valid_hashers, contains_borrowed_key, maps_borrowed_key_to_value,
    obeys_key_model,
};
use std::borrow::Borrow;
use std::collections::HashMap;
use std::hash::Hash;
use std::rc::Rc;

verus! {

/// Something that can load a resource of type `R` from a description of it.
pub trait ResourceLoader<'l, R> {
    /// The description of a resource, such as a path.
    type Args: ?Sized;

    /// Loads the resource that `data` describes, or says why it cannot.
    fn load(&'l self, data: &Self::Args) -> Result<R, String>;
}

/// A cache in front of a loader. Keys of type `K` are made from the
/// descriptions that the loader takes; the view is the map from keys to the
/// resources held.
///
/// What the contracts say of the cache holds for key types that hash and
/// compare as a hash map expects (`obeys_key_model`). They speak of lookups
/// by a borrowed form of the key in the terms that `vstd` gives for hash
/// maps.
pub struct ResourceManager<'l, K, R, L> where K: Hash + Eq, L: 'l + ResourceLoader<'l, R> {
    loader: &'l L,
    cache: HashMap<K, Rc<R>>,
}

/// Another handle to the resource behind `rc`, by `Rc::clone`, which copies
/// the pointer and not the resource: the two handles are equal.
#[verifier::external_body]
fn share<R>(rc: &Rc<R>) -> (other: Rc<R>)
    ensures
        other == *rc,
{
    Rc::clone(rc)
}

impl<'l, K, R, L> View for ResourceManager<'l, K, R, L> where
    K: Hash + Eq,
    L: ResourceLoader<'l, R>,
{
    type V = Map<K, Rc<R>>;

    /// The resources held, by key.
    closed spec fn view(&self) -> Map<K, Rc<R>> {
        self.cache@
    }
}

impl<'l, K, R, L> ResourceManager<'l, K, R, L> where K: Hash + Eq, L: ResourceLoader<'l, R> {
    /// The loader behind the cache.
    pub closed spec fn loader(&self) -> &'l L {
        self.loader
    }

    /// An empty cache in front of `loader`.
    pub fn new(loader: &'l L) -> (manager: Self)
        ensures
            manager@ == Map::<K, Rc<R>>::empty(),
            manager.loader() == loader,
    {
        ResourceManager { cache: HashMap::new(), loader: loader }
    }

    /// The resource held for `details`, if there is one; the cache stays as
    /// it is.
    pub fn cached<D>(&self, details: &D) -> (found: Option<Rc<R>>) where
        D: Eq + Hash + ?Sized,
        K: Borrow<D>,

        ensures
            obeys_key_model::<K>() ==> match found {
                Some(rc) => maps_borrowed_key_to_value(self@, details, rc),
                None => !contains_borrowed_key(self@, details),
            },
    {
        broadcast use axiom_random_state_builds_valid_hashers;

        match self.cache.get(details) {
            Some(rc) => Some(share(rc)),
            None => None,
        }
    }

    /// Takes what the loader gave for `details`: a resource is put into the
    /// cache under the key made from `details` and handed back; an error is
    /// handed back and the cache stays as it was.
    pub fn keep<D>(&mut self, details: &D, loaded: Result<R, String>) -> (res: Result<
        Rc<R>,
        String,
    >) where D: ?Sized, K: for<'a> From<&'a D>
        ensures
            final(self).loader() == old(self).loader(),
            match loaded {
                Ok(r) => res matches Ok(rc) && *rc == r && (obeys_key_model::<K>()
                    ==> exists|key: K|
                    call_ensures(K::from, (details,), key) && final(self)@ == old(self)@.insert(
                        key,
                        rc,
                    )),
                Err(e) => res == Err::<Rc<R>, String>(e) && final(self)@ == old(self)@,
            },
    {
        broadcast use axiom_random_state_builds_valid_hashers;

        match loaded {
            Ok(r) => {
                let resource = Rc::new(r);
                let key = K::from(details);
                let ghost made = key;
                self.cache.insert(key, share(&resource));
                assert(call_ensures(K::from, (details,), made) && (obeys_key_model::<K>()
                    ==> self@ == old(self)@.insert(made, resource)));
                Ok(resource)
            },
            Err(e) => Err(e),
        }
    }

    /// The resource for `details`: the one held, if there is one, and else
    /// the one that the loader gives, which is then held. The loader is
    /// asked only if nothing is held for `details`, and a failure of the
    /// loader leaves the cache as it was.
    pub fn load<D>(&mut self, details: &D) -> (res: Result<Rc<R>, String>) where
        L: ResourceLoader<'l, R, Args = D>,
        D: Eq + Hash + ?Sized,
        K: Borrow<D> + for<'a> From<&'a D>,

        ensures
            final(self).loader() == old(self).loader(),
            obeys_key_model::<K>() ==> match res {
                Ok(rc) => {
                    ||| maps_borrowed_key_to_value(old(self)@, details, rc) && final(self)@ == old(
                        self,
                    )@
                    ||| !contains_borrowed_key(old(self)@, details) && call_ensures(
                        L::load,
                        (old(self).loader(), details),
                        Ok::<R, String>(*rc),
                    ) && exists|key: K|
                        call_ensures(K::from, (details,), key) && final(self)@ == old(
                            self,
                        )@.insert(key, rc)
                },
                Err(e) => !contains_borrowed_key(old(self)@, details) && call_ensures(
                    L::load,
                    (old(self).loader(), details),
                    Err::<R, String>(e),
                ) && final(self)@ == old(self)@,
            },
    {
        match self.cached(details) {
            Some(rc) => Ok(rc),
            None => {
                let loaded = self.loader.load(details);
                self.keep(details, loaded)
            },
        }
    }
}

/// For keys that are looked up by themselves: once a resource is kept under
/// a key, a lookup of that key finds this resource, whatever the cache held
/// before, so the loader is not asked for it again.
pub proof fn lemma_kept_is_found<K, R>(cache: Map<K, Rc<R>>, key: K, rc: Rc<R>)
    ensures
        contains_borrowed_key::<K, Rc<R>, K>(cache.insert(key, rc), &key),
        forall|other: Rc<R>|
            maps_borrowed_key_to_value::<K, Rc<R>, K>(cache.insert(key, rc), &key, other)
                <==> other == rc,
{
    broadcast use axiom_contains_deref_key, axiom_maps_deref_key_to_value;

}

} // verus!
