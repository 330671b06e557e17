//! The object store: objects kept under their content hash, found again
//! by a full hash or by a prefix of its text.

use crate::error::RepoError;
use crate::hash::{hash_object, spec_hash, spec_hex, ContentHash, ObjectKind};
use crate::path::{join, spec_join};
use crate::repo::RepoContext;
use crate::text::{chars_of, has_prefix, starts_with};
use vstd::prelude::*;
use vstd::slice::slice_to_vec;
use vstd::string::StrSliceExecFns;

verus! {

/// The name of the directory, inside the control directory, under which
/// objects are kept.
pub const OBJECTS_DIR: &'static str = "objects";

/// A stored object as the contracts see it.
pub ghost struct ObjectModel {
    pub hash: Seq<u8>,
    pub kind: ObjectKind,
    pub data: Seq<u8>,
}

/// A stored object: its hash, its kind and its bytes.
#[derive(Debug)]
pub struct StoredObject {
    pub hash: ContentHash,
    pub kind: ObjectKind,
    pub data: Vec<u8>,
}

impl View for StoredObject {
    type V = ObjectModel;

    open spec fn view(&self) -> ObjectModel {
        ObjectModel { hash: self.hash@, kind: self.kind, data: self.data@ }
    }
}

/// Every object is stored under the hash of its own kind and bytes, and
/// no hash is there twice.
pub open spec fn store_wf(objs: Seq<ObjectModel>) -> bool {
    &&& forall|i: int|
        0 <= i < objs.len() ==> (#[trigger] objs[i]).hash == spec_hash(objs[i].kind, objs[i].data)
    &&& forall|i: int, j: int|
        0 <= i < j < objs.len() ==> (#[trigger] objs[i]).hash != (#[trigger] objs[j]).hash
}

/// Whether an object is stored under `hash`.
pub open spec fn contains_hash(objs: Seq<ObjectModel>, hash: Seq<u8>) -> bool {
    exists|i: int| 0 <= i < objs.len() && (#[trigger] objs[i]).hash == hash
}

/// The object stored under `hash`, if there is one.
pub open spec fn lookup(objs: Seq<ObjectModel>, hash: Seq<u8>) -> Option<ObjectModel> {
    if contains_hash(objs, hash) {
        Some(objs[choose|i: int| 0 <= i < objs.len() && (#[trigger] objs[i]).hash == hash])
    } else {
        None
    }
}

/// The store after an object of `kind` with `data` was put: unchanged if
/// its hash is there already, longer by that object otherwise.
pub open spec fn spec_put(objs: Seq<ObjectModel>, kind: ObjectKind, data: Seq<u8>) -> Seq<
    ObjectModel,
> {
    if contains_hash(objs, spec_hash(kind, data)) {
        objs
    } else {
        objs.push(ObjectModel { hash: spec_hash(kind, data), kind, data })
    }
}

/// Whether the text of `hash` starts with `prefix`.
pub open spec fn matches_prefix(hash: Seq<u8>, prefix: Seq<char>) -> bool {
    has_prefix(spec_hex(hash), prefix)
}

/// The stored hashes whose text starts with `prefix`, in the order in
/// which they were stored.
pub open spec fn spec_search(objs: Seq<ObjectModel>, prefix: Seq<char>) -> Seq<Seq<u8>> {
    objs.filter(|o: ObjectModel| matches_prefix(o.hash, prefix)).map_values(
        |o: ObjectModel| o.hash,
    )
}

/// What resolving `prefix` to one object gives: the one stored hash that
/// starts with it, `InvalidReference` where there is none,
/// `AmbiguousReference` where there are several.
pub open spec fn spec_resolve(objs: Seq<ObjectModel>, prefix: Seq<char>) -> Result<
    Seq<u8>,
    RepoError,
> {
    let found = spec_search(objs, prefix);
    if found.len() == 0 {
        Err(RepoError::InvalidReference)
    } else if found.len() > 1 {
        Err(RepoError::AmbiguousReference)
    } else {
        Ok(found[0])
    }
}

/// What resolving `prefix` to a commit gives: as `spec_resolve`, and
/// `NotACommit` where the one object is of another kind.
pub open spec fn spec_commit_base(objs: Seq<ObjectModel>, prefix: Seq<char>) -> Result<
    Seq<u8>,
    RepoError,
> {
    match spec_resolve(objs, prefix) {
        Err(e) => Err(e),
        Ok(hash) => match lookup(objs, hash) {
            Some(o) => if o.kind == ObjectKind::Commit {
                Ok(hash)
            } else {
                Err(RepoError::NotACommit(o.kind))
            },
            None => Err(RepoError::NotFound),
        },
    }
}

/// The views of a sequence of hashes.
pub open spec fn hash_views(hashes: Seq<ContentHash>) -> Seq<Seq<u8>> {
    hashes.map_values(|h: ContentHash| h@)
}

/// Where an object stands under `hash` in a well-formed store, looking
/// `hash` up finds that object.
pub proof fn lemma_lookup_at(objs: Seq<ObjectModel>, i: int)
    requires
        store_wf(objs),
        0 <= i < objs.len(),
    ensures
        contains_hash(objs, objs[i].hash),
        lookup(objs, objs[i].hash) == Some(objs[i]),
{
    let hash = objs[i].hash;
    let j = choose|j: int| 0 <= j < objs.len() && (#[trigger] objs[j]).hash == hash;
    if j != i {
        if j < i {
            assert(objs[j].hash != objs[i].hash);
        } else {
            assert(objs[i].hash != objs[j].hash);
        }
    }
}

/// Putting an object keeps the store well formed.
pub proof fn lemma_put_keeps_wf(objs: Seq<ObjectModel>, kind: ObjectKind, data: Seq<u8>)
    requires
        store_wf(objs),
    ensures
        store_wf(spec_put(objs, kind, data)),
        contains_hash(spec_put(objs, kind, data), spec_hash(kind, data)),
{
    let after = spec_put(objs, kind, data);
    if !contains_hash(objs, spec_hash(kind, data)) {
        assert(after[objs.len() as int].hash == spec_hash(kind, data));
        assert forall|i: int, j: int| 0 <= i < j < after.len() implies (#[trigger] after[i]).hash
            != (#[trigger] after[j]).hash by {
            if j == objs.len() {
                assert(objs[i].hash != spec_hash(kind, data));
            } else {
                assert(objs[i].hash != objs[j].hash);
            }
        }
        assert forall|i: int| 0 <= i < after.len() implies (#[trigger] after[i]).hash == spec_hash(
            after[i].kind,
            after[i].data,
        ) by {
            if i < objs.len() {
                assert(objs[i].hash == spec_hash(objs[i].kind, objs[i].data));
            }
        }
    } else {
        let i = choose|i: int| 0 <= i < objs.len() && (#[trigger] objs[i]).hash == spec_hash(
            kind,
            data,
        );
        assert(after[i].hash == spec_hash(kind, data));
    }
}

/// Round trip: what was put is what is got under its hash, unless the
/// store already held a different object with the same hash.
pub proof fn lemma_put_then_get(objs: Seq<ObjectModel>, kind: ObjectKind, data: Seq<u8>)
    requires
        store_wf(objs),
        forall|i: int|
            0 <= i < objs.len() && (#[trigger] objs[i]).hash == spec_hash(kind, data) ==> objs[i].kind
                == kind && objs[i].data == data,
    ensures
        lookup(spec_put(objs, kind, data), spec_hash(kind, data)) == Some(
            ObjectModel { hash: spec_hash(kind, data), kind, data },
        ),
{
    let after = spec_put(objs, kind, data);
    lemma_put_keeps_wf(objs, kind, data);
    if contains_hash(objs, spec_hash(kind, data)) {
        let i = choose|i: int| 0 <= i < objs.len() && (#[trigger] objs[i]).hash == spec_hash(
            kind,
            data,
        );
        lemma_lookup_at(after, i);
    } else {
        lemma_lookup_at(after, objs.len() as int);
    }
}

/// Putting the same object twice is putting it once, and the store then
/// holds exactly one object under its hash.
pub proof fn lemma_put_idempotent(objs: Seq<ObjectModel>, kind: ObjectKind, data: Seq<u8>)
    requires
        store_wf(objs),
    ensures
        spec_put(spec_put(objs, kind, data), kind, data) == spec_put(objs, kind, data),
        spec_put(objs, kind, data).filter(|o: ObjectModel| o.hash == spec_hash(kind, data)).len()
            == 1,
{
    let after = spec_put(objs, kind, data);
    let hash = spec_hash(kind, data);
    lemma_put_keeps_wf(objs, kind, data);
    let i = choose|i: int| 0 <= i < after.len() && (#[trigger] after[i]).hash == hash;
    lemma_count_one(after, hash, i, after.len() as int);
    assert(after.take(after.len() as int) == after);
}

/// In a store of distinct hashes, the objects under one hash among the
/// first `n` are one if the hash stands before `n`, none otherwise.
proof fn lemma_count_one(objs: Seq<ObjectModel>, hash: Seq<u8>, at: int, n: int)
    requires
        store_wf(objs),
        0 <= at < objs.len(),
        objs[at].hash == hash,
        0 <= n <= objs.len(),
    ensures
        objs.take(n).filter(|o: ObjectModel| o.hash == hash).len() == (if at < n {
            1nat
        } else {
            0nat
        }),
    decreases n,
{
    reveal(Seq::filter);
    if n > 0 {
        lemma_count_one(objs, hash, at, n - 1);
        assert(objs.take(n).drop_last() == objs.take(n - 1));
        assert(objs.take(n).last() == objs[n - 1]);
        if n - 1 != at {
            if n - 1 < at {
                assert(objs[n - 1].hash != objs[at].hash);
            } else {
                assert(objs[at].hash != objs[n - 1].hash);
            }
        }
    }
}

/// A prefix resolves to a hash exactly when one stored hash starts with
/// it; with none it is invalid, with more than one ambiguous.
pub proof fn lemma_resolve_by_count(objs: Seq<ObjectModel>, prefix: Seq<char>)
    ensures
        spec_search(objs, prefix).len() == 0 <==> spec_resolve(objs, prefix) == Err::<
            Seq<u8>,
            RepoError,
        >(RepoError::InvalidReference),
        spec_search(objs, prefix).len() >= 2 <==> spec_resolve(objs, prefix) == Err::<
            Seq<u8>,
            RepoError,
        >(RepoError::AmbiguousReference),
        spec_search(objs, prefix).len() == 1 <==> spec_resolve(objs, prefix) == Ok::<
            Seq<u8>,
            RepoError,
        >(spec_search(objs, prefix)[0]),
{
}

proof fn lemma_search_first(objs: Seq<ObjectModel>, prefix: Seq<char>, n: int)
    requires
        0 <= n <= objs.len(),
    ensures
        forall|h: Seq<u8>| #[trigger]
            spec_search(objs.take(n), prefix).contains(h) <==> (matches_prefix(h, prefix)
                && exists|i: int| 0 <= i < n && (#[trigger] objs[i]).hash == h),
        store_wf(objs) ==> spec_search(objs.take(n), prefix).no_duplicates(),
    decreases n,
{
    reveal(Seq::filter);
    let pred = |o: ObjectModel| matches_prefix(o.hash, prefix);
    let cur = spec_search(objs.take(n), prefix);
    if n == 0 {
        assert(objs.take(0).filter(pred) == Seq::<ObjectModel>::empty());
        assert(cur == Seq::<Seq<u8>>::empty());
    } else {
        lemma_search_first(objs, prefix, n - 1);
        let prev = spec_search(objs.take(n - 1), prefix);
        let last = objs[n - 1];
        assert(objs.take(n).drop_last() == objs.take(n - 1));
        assert(objs.take(n).last() == last);
        if pred(last) {
            assert(cur == prev.push(last.hash));
            assert(cur[prev.len() as int] == last.hash);
        } else {
            assert(cur == prev);
        }
        assert forall|h: Seq<u8>| #[trigger]
            cur.contains(h) <==> (matches_prefix(h, prefix) && exists|i: int|
                0 <= i < n && (#[trigger] objs[i]).hash == h) by {
            if cur.contains(h) {
                let k = choose|k: int| 0 <= k < cur.len() && cur[k] == h;
                if k < prev.len() {
                    assert(prev[k] == h);
                    assert(prev.contains(h));
                    let i = choose|i: int| 0 <= i < n - 1 && (#[trigger] objs[i]).hash == h;
                    assert(objs[i].hash == h);
                } else {
                    assert(objs[n - 1].hash == h);
                }
            }
            if matches_prefix(h, prefix) && exists|i: int|
                0 <= i < n && (#[trigger] objs[i]).hash == h {
                let i = choose|i: int| 0 <= i < n && (#[trigger] objs[i]).hash == h;
                if i < n - 1 {
                    assert(prev.contains(h));
                    let k = choose|k: int| 0 <= k < prev.len() && prev[k] == h;
                    assert(cur[k] == h);
                } else {
                    assert(cur[prev.len() as int] == h);
                }
            }
        }
        if store_wf(objs) && pred(last) {
            if prev.contains(last.hash) {
                let i = choose|i: int| 0 <= i < n - 1 && (#[trigger] objs[i]).hash == last.hash;
                assert(objs[i].hash != objs[n - 1].hash);
            }
            assert forall|a: int, b: int| 0 <= a < cur.len() && 0 <= b < cur.len() && a != b implies cur[a]
                != cur[b] by {
                if a == prev.len() {
                    assert(prev[b] == cur[b]);
                    assert(prev.contains(cur[b]));
                } else if b == prev.len() {
                    assert(prev[a] == cur[a]);
                    assert(prev.contains(cur[a]));
                } else {
                    assert(prev[a] != prev[b]);
                }
            }
        }
    }
}

/// A search finds exactly the stored hashes whose text starts with the
/// prefix, and none of them twice.
pub proof fn lemma_search_is_selection(objs: Seq<ObjectModel>, prefix: Seq<char>)
    ensures
        forall|h: Seq<u8>| #[trigger]
            spec_search(objs, prefix).contains(h) <==> (matches_prefix(h, prefix) && contains_hash(
                objs,
                h,
            )),
        store_wf(objs) ==> spec_search(objs, prefix).no_duplicates(),
{
    lemma_search_first(objs, prefix, objs.len() as int);
    assert(objs.take(objs.len() as int) == objs);
}

/// The objects of one repository, each under its content hash.
pub struct ObjectStore {
    root: String,
    objects: Vec<StoredObject>,
}

impl View for ObjectStore {
    type V = Seq<ObjectModel>;

    closed spec fn view(&self) -> Seq<ObjectModel> {
        self.objects@.map_values(|o: StoredObject| o@)
    }
}

impl ObjectStore {
    #[verifier::type_invariant]
    closed spec fn inv(self) -> bool {
        store_wf(self@)
    }

    /// The directory that this store belongs to.
    pub closed spec fn spec_root(self) -> Seq<char> {
        self.root@
    }

    /// An empty store for the directory `root`.
    pub fn init(root: String) -> (store: ObjectStore)
        ensures
            store@ == Seq::<ObjectModel>::empty(),
            store.spec_root() == root@,
    {
        let store = ObjectStore { root, objects: Vec::new() };
        assert(store@ == Seq::<ObjectModel>::empty());
        store
    }

    /// The directory that this store belongs to.
    pub fn root(&self) -> (root: String)
        ensures
            root@ == self.spec_root(),
    {
        self.root.clone()
    }

    /// The number of objects stored.
    pub fn len(&self) -> (n: usize)
        ensures
            n == self@.len(),
            store_wf(self@),
    {
        proof {
            use_type_invariant(self);
        }
        self.objects.len()
    }

    fn find(&self, hash: &ContentHash) -> (at: Option<usize>)
        ensures
            store_wf(self@),
            match at {
                Some(i) => i < self@.len() && self@[i as int].hash == hash@ && self@[i as int]
                    == self.objects@[i as int]@ && lookup(self@, hash@) == Some(self@[i as int]),
                None => !contains_hash(self@, hash@),
            },
    {
        proof {
            use_type_invariant(self);
        }
        let mut i: usize = 0;
        while i < self.objects.len()
            invariant
                i <= self.objects.len(),
                self@.len() == self.objects.len(),
                store_wf(self@),
                forall|k: int| 0 <= k < i ==> (#[trigger] self@[k]).hash != hash@,
            decreases self.objects.len() - i,
        {
            if self.objects[i].hash.same_as(hash) {
                proof {
                    lemma_lookup_at(self@, i as int);
                }
                return Some(i);
            }
            i += 1;
        }
        None
    }

    /// Whether an object is stored under `hash`.
    pub fn exist(&self, hash: &ContentHash) -> (yes: bool)
        ensures
            yes == contains_hash(self@, hash@),
    {
        self.find(hash).is_some()
    }

    /// Stores an object and returns its hash. Storing what is there
    /// already changes nothing.
    pub fn put(&mut self, kind: ObjectKind, data: &[u8]) -> (hash: ContentHash)
        ensures
            hash@ == spec_hash(kind, data@),
            final(self)@ == spec_put(old(self)@, kind, data@),
            final(self).spec_root() == old(self).spec_root(),
            store_wf(old(self)@),
            store_wf(final(self)@),
    {
        let hash = hash_object(kind, data);
        match self.find(&hash) {
            Some(_) => {},
            None => {
                let ghost before = self@;
                proof {
                    lemma_put_keeps_wf(before, kind, data@);
                }
                let object = StoredObject { hash, kind, data: slice_to_vec(data) };
                let mut taken = ObjectStore { root: String::new(), objects: Vec::new() };
                assert(taken@ == Seq::<ObjectModel>::empty());
                std::mem::swap(self, &mut taken);
                let ObjectStore { root, mut objects } = taken;
                objects.push(object);
                proof {
                    let after = objects@.map_values(|o: StoredObject| o@);
                    assert(after == before.push(object@));
                    assert(after == spec_put(before, kind, data@));
                }
                let grown = ObjectStore { root, objects };
                assert(grown@ == before.push(object@));
                *self = grown;
            },
        }
        hash
    }

    /// The kind and bytes stored under `hash`, or `NotFound`.
    pub fn get(&self, hash: &ContentHash) -> (found: Result<(ObjectKind, Vec<u8>), RepoError>)
        ensures
            match found {
                Ok((kind, data)) => lookup(self@, hash@) == Some(
                    ObjectModel { hash: hash@, kind, data: data@ },
                ),
                Err(e) => e == RepoError::NotFound && lookup(self@, hash@).is_none(),
            },
    {
        match self.find(hash) {
            Some(i) => {
                let object = &self.objects[i];
                Ok((object.kind, object.data.clone()))
            },
            None => Err(RepoError::NotFound),
        }
    }

    /// The kind of the object stored under `hash`, or `NotFound`.
    pub fn get_type(&self, hash: &ContentHash) -> (kind: Result<ObjectKind, RepoError>)
        ensures
            match kind {
                Ok(k) => lookup(self@, hash@).is_some() && lookup(self@, hash@).unwrap().kind == k,
                Err(e) => e == RepoError::NotFound && lookup(self@, hash@).is_none(),
            },
    {
        match self.find(hash) {
            Some(i) => Ok(self.objects[i].kind),
            None => Err(RepoError::NotFound),
        }
    }

    /// Whether the object stored under `hash` is of kind `expected`, or
    /// `NotFound`.
    pub fn check_type(&self, hash: &ContentHash, expected: ObjectKind) -> (same: Result<
        bool,
        RepoError,
    >)
        ensures
            match same {
                Ok(b) => lookup(self@, hash@).is_some() && b == (lookup(self@, hash@).unwrap().kind
                    == expected),
                Err(e) => e == RepoError::NotFound && lookup(self@, hash@).is_none(),
            },
    {
        match self.get_type(hash) {
            Ok(kind) => Ok(kind == expected),
            Err(e) => Err(e),
        }
    }

    /// The hashes of all stored objects, in the order in which they were
    /// stored.
    pub fn hashes(&self) -> (all: Vec<ContentHash>)
        ensures
            hash_views(all@) == self@.map_values(|o: ObjectModel| o.hash),
    {
        let mut all: Vec<ContentHash> = Vec::new();
        let mut i: usize = 0;
        while i < self.objects.len()
            invariant
                i <= self.objects.len(),
                self@.len() == self.objects.len(),
                hash_views(all@) == self@.take(i as int).map_values(|o: ObjectModel| o.hash),
            decreases self.objects.len() - i,
        {
            let ghost before = hash_views(all@);
            let hash = self.objects[i].hash;
            all.push(hash);
            proof {
                assert(self@[i as int].hash == hash@);
                assert(hash_views(all@) == before.push(hash@));
                assert(self@.take(i + 1) == self@.take(i as int).push(self@[i as int]));
                assert(self@.take(i + 1).map_values(|o: ObjectModel| o.hash) == self@.take(
                    i as int,
                ).map_values(|o: ObjectModel| o.hash).push(hash@));
            }
            i += 1;
        }
        assert(self@.take(self@.len() as int) == self@);
        all
    }

    /// Every stored hash whose text starts with `prefix`.
    pub fn search(&self, prefix: &str) -> (found: Vec<ContentHash>)
        ensures
            hash_views(found@) == spec_search(self@, prefix@),
    {
        let wanted = chars_of(prefix);
        let mut found: Vec<ContentHash> = Vec::new();
        let mut i: usize = 0;
        proof {
            reveal(Seq::filter);
            assert(self@.take(0) == Seq::<ObjectModel>::empty());
            assert(hash_views(found@) == spec_search(self@.take(0), prefix@));
        }
        while i < self.objects.len()
            invariant
                i <= self.objects.len(),
                self@.len() == self.objects.len(),
                wanted@ == prefix@,
                hash_views(found@) == spec_search(self@.take(i as int), prefix@),
            decreases self.objects.len() - i,
        {
            let ghost before = hash_views(found@);
            let hash = self.objects[i].hash;
            let text = chars_of(hash.to_hex().as_str());
            proof {
                reveal(Seq::filter);
                assert(self@.take(i + 1).drop_last() == self@.take(i as int));
                assert(self@.take(i + 1).last() == self@[i as int]);
                assert(self@[i as int].hash == hash@);
            }
            if starts_with(&text, &wanted) {
                found.push(hash);
                assert(hash_views(found@) == before.push(hash@));
                assert(hash_views(found@) == spec_search(self@.take(i + 1), prefix@));
            } else {
                assert(hash_views(found@) == spec_search(self@.take(i + 1), prefix@));
            }
            i += 1;
        }
        assert(self@.take(self@.len() as int) == self@);
        found
    }

    /// The one stored hash whose text starts with `prefix`.
    pub fn resolve_unique(&self, prefix: &str) -> (hash: Result<ContentHash, RepoError>)
        ensures
            match hash {
                Ok(h) => spec_resolve(self@, prefix@) == Ok::<Seq<u8>, RepoError>(h@),
                Err(e) => spec_resolve(self@, prefix@) == Err::<Seq<u8>, RepoError>(e),
            },
    {
        let found = self.search(prefix);
        if found.len() == 0 {
            Err(RepoError::InvalidReference)
        } else if found.len() > 1 {
            Err(RepoError::AmbiguousReference)
        } else {
            Ok(found[0])
        }
    }

    /// Where the object with `hash` is kept on disk: below the store's
    /// directory, in a directory named by the first two digits of the
    /// hash, in a file named by the other 38.
    pub open spec fn spec_object_path(self, hash: Seq<u8>) -> Seq<char> {
        spec_join(
            spec_join(self.spec_root(), spec_hex(hash).take(2)),
            spec_hex(hash).skip(2),
        )
    }

    /// The place of the object with `hash` on disk.
    pub fn object_path(&self, hash: &ContentHash) -> (path: String)
        ensures
            path@ == self.spec_object_path(hash@),
    {
        let text = hash.to_hex();
        let head = text.as_str().substring_char(0, 2);
        let tail = text.as_str().substring_char(2, 40);
        assert(tail@ == spec_hex(hash@).skip(2));
        let dir = join(self.root.as_str(), head);
        join(dir.as_str(), tail)
    }
}

/// The commit that `commit_base`, a prefix of a hash's text, stands for.
/// Fails where the prefix matches no object, more than one, or one that
/// is no commit.
pub fn get_commit_base(store: &ObjectStore, commit_base: &str) -> (commit: Result<
    ContentHash,
    RepoError,
>)
    ensures
        match commit {
            Ok(h) => spec_commit_base(store@, commit_base@) == Ok::<Seq<u8>, RepoError>(h@),
            Err(e) => spec_commit_base(store@, commit_base@) == Err::<Seq<u8>, RepoError>(e),
        },
{
    let hash = match store.resolve_unique(commit_base) {
        Ok(h) => h,
        Err(e) => {
            return Err(e);
        },
    };
    match store.get_type(&hash) {
        Ok(kind) => {
            if kind == ObjectKind::Commit {
                Ok(hash)
            } else {
                Err(RepoError::NotACommit(kind))
            }
        },
        Err(e) => Err(e),
    }
}

/// The object store of the repository, empty until objects are put.
pub fn objects_storage(ctx: &RepoContext) -> (store: ObjectStore)
    ensures
        store@ == Seq::<ObjectModel>::empty(),
        store.spec_root() == spec_join(ctx.storage@, OBJECTS_DIR@),
{
    ObjectStore::init(join(ctx.storage.as_str(), OBJECTS_DIR))
}

} // verus!
