use vstd::prelude::*;
use vstd::hash_map::StringHashMap;

verus! {

/// Data a client stored under an id, to be used by a later operation.
pub struct CachedObj<D> {
    pub id: String,
    pub data: D,
}

impl<D> CachedObj<D> {
    /// The object `data` stored under `id`.
    pub fn new(id: String, data: D) -> (obj: CachedObj<D>)
        ensures
            obj.id == id,
            obj.data == data,
    {
        CachedObj { id, data }
    }
}

/// The cached objects, by id.
#[verifier::reject_recursive_types(D)]
pub struct ObjectCache<D> {
    objects: StringHashMap<CachedObj<D>>,
}

impl<D> View for ObjectCache<D> {
    type V = Map<Seq<char>, CachedObj<D>>;

    closed spec fn view(&self) -> Map<Seq<char>, CachedObj<D>> {
        self.objects@
    }
}

impl<D> ObjectCache<D> {
    /// Every object is stored under its own id.
    pub open spec fn wf(&self) -> bool {
        forall|k: Seq<char>| #[trigger] self@.contains_key(k) ==> self@[k].id@ == k
    }

    /// An empty cache.
    pub fn new() -> (cache: ObjectCache<D>)
        ensures
            cache@ == Map::<Seq<char>, CachedObj<D>>::empty(),
            cache.wf(),
    {
        ObjectCache { objects: StringHashMap::new() }
    }
}

/// Stores `obj` under its id, replacing what was there.
pub fn insert_cache_object<D>(cache: &mut ObjectCache<D>, obj: CachedObj<D>)
    requires
        old(cache).wf(),
    ensures
        final(cache).wf(),
        final(cache)@ == old(cache)@.insert(obj.id@, obj),
{
    cache.objects.insert(obj.id.clone(), obj);
}

/// The object stored under `id`, if any.
pub fn get_cached_object<'a, D>(cache: &'a ObjectCache<D>, id: &str) -> (obj: Option<&'a CachedObj<D>>)
    ensures
        match obj {
            Some(o) => cache@.contains_key(id@) && *o == cache@[id@],
            None => !cache@.contains_key(id@),
        },
{
    cache.objects.get(id)
}

/// Forgets the object stored under `id`.
pub fn remove_cached_object<D>(cache: &mut ObjectCache<D>, id: &str)
    requires
        old(cache).wf(),
    ensures
        final(cache).wf(),
        final(cache)@ == old(cache)@.remove(id@),
{
    cache.objects.remove(id);
}

/// Forgets every object.
pub fn clear_cached_objects<D>(cache: &mut ObjectCache<D>)
    ensures
        final(cache).wf(),
        final(cache)@ == Map::<Seq<char>, CachedObj<D>>::empty(),
{
    cache.objects.clear();
}

/// Replaces the data of the object stored under `id`; nothing happens when no
/// object is stored there.
pub fn overwrite_data_in_cached_object<D>(cache: &mut ObjectCache<D>, id: &str, new_data: D)
    requires
        old(cache).wf(),
    ensures
        final(cache).wf(),
        old(cache)@.contains_key(id@) ==> final(cache)@ == old(cache)@.insert(
            id@,
            CachedObj { id: old(cache)@[id@].id, data: new_data },
        ),
        !old(cache)@.contains_key(id@) ==> final(cache)@ == old(cache)@,
{
    let stored_id = match cache.objects.get(id) {
        Some(cached_obj) => cached_obj.id.clone(),
        None => {
            return;
        },
    };
    let key = stored_id.clone();
    cache.objects.insert(key, CachedObj { id: stored_id, data: new_data });
}

/// What is read back under an id is what was last stored there.
pub proof fn law_get_after_insert<D>(m: Map<Seq<char>, CachedObj<D>>, obj: CachedObj<D>)
    ensures
        m.insert(obj.id@, obj).contains_key(obj.id@),
        m.insert(obj.id@, obj)[obj.id@] == obj,
{
}

/// Nothing is read back under an id once it was removed, and removing or
/// storing under one id leaves the others as they were.
pub proof fn law_remove_forgets<D>(m: Map<Seq<char>, CachedObj<D>>, id: Seq<char>, other: Seq<char>)
    requires
        id != other,
    ensures
        !m.remove(id).contains_key(id),
        m.remove(id).contains_key(other) == m.contains_key(other),
        m.contains_key(other) ==> m.remove(id)[other] == m[other],
{
}

} // verus!
