//! Key-value stores of the lambda host: one namespace per lambda (or per plugin and
//! user), raw byte values, and the read permissions of a lambda.

use crate::strmap::StrMap;
use crate::text::{str_eq, to_string, views};
use vstd::prelude::*;

verus! {

/// The byte contents of a map of byte vectors.
pub open spec fn bytes_view(m: Map<Seq<char>, Vec<u8>>) -> Map<Seq<char>, Seq<u8>> {
    m.map_values(|v: Vec<u8>| v@)
}

/// A copy of a byte vector.
pub fn copy_bytes(v: &Vec<u8>) -> (r: Vec<u8>)
    ensures
        r@ == v@,
{
    let mut r: Vec<u8> = Vec::new();
    let mut i: usize = 0;
    while i < v.len()
        invariant
            i <= v@.len(),
            r@ == v@.take(i as int),
        decreases v@.len() - i,
    {
        r.push(v[i]);
        assert(v@.take(i + 1) == v@.take(i as int).push(v@[i as int]));
        i = i + 1;
    }
    assert(v@.take(v@.len() as int) == v@);
    r
}

/// A copy of a map of byte vectors.
pub fn copy_bytes_map(m: &StrMap<Vec<u8>>) -> (r: StrMap<Vec<u8>>)
    requires
        m.wf(),
    ensures
        r.wf(),
        bytes_view(r.view()) == bytes_view(m.view()),
{
    let mut r: StrMap<Vec<u8>> = StrMap::new();
    let n = m.len();
    let ghost keys = m.key_seq();
    proof {
        m.lemma_keys();
    }
    let mut i: usize = 0;
    while i < n
        invariant
            m.wf(),
            r.wf(),
            keys == m.key_seq(),
            n == keys.len(),
            i <= n,
            bytes_view(r.view()) == bytes_view(m.view()).restrict(keys.take(i as int).to_set()),
        decreases n - i,
    {
        let k = m.key_at(i);
        let v = m.value_at(i);
        let ghost kk = keys[i as int];
        let ghost before = r.view();
        let c = copy_bytes(v);
        let kc = k.clone();
        let ghost cv = c;
        r.insert(kc, c);
        proof {
            assert(keys.take(i + 1).to_set() == keys.take(i as int).to_set().insert(kk)) by {
                assert(keys.take(i + 1) == keys.take(i as int).push(kk));
                keys.take(i as int).lemma_push_to_set_commute(kk);
            }
            let target = bytes_view(m.view()).restrict(keys.take(i + 1).to_set());
            assert(r.view() == before.insert(kk, cv));
            assert forall|x: Seq<char>| #[trigger] bytes_view(r.view()).contains_key(x) implies
                target.contains_key(x) && bytes_view(r.view())[x] == target[x] by {
                if x != kk {
                    assert(bytes_view(before).contains_key(x));
                    assert(bytes_view(before)[x] == before[x]@);
                }
            }
            assert forall|x: Seq<char>| #[trigger] target.contains_key(x) implies bytes_view(r.view()).contains_key(x) by {
                if x != kk {
                    assert(bytes_view(before).contains_key(x));
                }
            }
            assert(bytes_view(r.view()) =~= target);
        }
        i = i + 1;
    }
    proof {
        assert(keys.take(n as int) == keys);
        assert(bytes_view(r.view()) =~= bytes_view(m.view()));
    }
    r
}

/// Shared store of all lambdas: lambda name, then key, then raw value.
pub struct LambdaKV {
    store: StrMap<StrMap<Vec<u8>>>,
}

/// The store seen as nested maps of byte strings.
pub open spec fn nested_view(m: Map<Seq<char>, StrMap<Vec<u8>>>) -> Map<Seq<char>, Map<Seq<char>, Seq<u8>>> {
    m.map_values(|inner: StrMap<Vec<u8>>| bytes_view(inner.view()))
}

/// The value under `(ns, key)` in a nested map, if any.
pub open spec fn nested_get(m: Map<Seq<char>, Map<Seq<char>, Seq<u8>>>, ns: Seq<char>, key: Seq<char>) -> Option<Seq<u8>> {
    if m.contains_key(ns) && m[ns].contains_key(key) {
        Some(m[ns][key])
    } else {
        None
    }
}

/// The namespace `ns` of a nested map, empty if it has none.
pub open spec fn namespace(m: Map<Seq<char>, Map<Seq<char>, Seq<u8>>>, ns: Seq<char>) -> Map<Seq<char>, Seq<u8>> {
    if m.contains_key(ns) {
        m[ns]
    } else {
        Map::empty()
    }
}

impl LambdaKV {
    pub closed spec fn wf(&self) -> bool {
        &&& self.store.wf()
        &&& forall|k: Seq<char>| #[trigger] self.store.view().contains_key(k) ==> self.store.view()[k].wf()
    }

    /// Lambda name, then key, then value.
    pub closed spec fn view(&self) -> Map<Seq<char>, Map<Seq<char>, Seq<u8>>> {
        nested_view(self.store.view())
    }

    /// An empty store.
    pub fn new() -> (r: Self)
        ensures
            r.wf(),
            r.view() == Map::<Seq<char>, Map<Seq<char>, Seq<u8>>>::empty(),
    {
        let r = LambdaKV { store: StrMap::new() };
        assert(r.view() =~= Map::<Seq<char>, Map<Seq<char>, Seq<u8>>>::empty());
        r
    }

    /// Stores raw bytes under `key` in the namespace of `lambda`.
    pub fn set_raw(&mut self, lambda: &str, key: &str, value: Vec<u8>)
        requires
            old(self).wf(),
        ensures
            final(self).wf(),
            final(self).view() == old(self).view().insert(
                lambda@,
                namespace(old(self).view(), lambda@).insert(key@, value@),
            ),
    {
        let ghost before = self.store.view();
        let mut inner = match self.store.remove(lambda) {
            Some(m) => m,
            None => StrMap::new(),
        };
        let ghost vv = value@;
        inner.insert(to_string(key), value);
        proof {
            assert(bytes_view(inner.view()) =~= namespace(nested_view(before), lambda@).insert(key@, vv));
        }
        self.store.insert(to_string(lambda), inner);
        proof {
            assert(self.view() =~= nested_view(before).insert(
                lambda@,
                namespace(nested_view(before), lambda@).insert(key@, vv),
            ));
        }
    }

    /// The raw bytes under `key` in the namespace of `lambda`, if any.
    pub fn get_raw(&self, lambda: &str, key: &str) -> (r: Option<Vec<u8>>)
        requires
            self.wf(),
        ensures
            match r {
                Some(v) => nested_get(self.view(), lambda@, key@) == Some(v@),
                None => nested_get(self.view(), lambda@, key@) is None,
            },
    {
        match self.store.get(lambda) {
            Some(inner) => match inner.get(key) {
                Some(v) => Some(copy_bytes(v)),
                None => None,
            },
            None => None,
        }
    }

    /// Removes `key` from the namespace of `lambda`; nothing happens if it is absent.
    pub fn remove(&mut self, lambda: &str, key: &str)
        requires
            old(self).wf(),
        ensures
            final(self).wf(),
            final(self).view() == if old(self).view().contains_key(lambda@) {
                old(self).view().insert(lambda@, old(self).view()[lambda@].remove(key@))
            } else {
                old(self).view()
            },
    {
        let ghost before = self.store.view();
        match self.store.remove(lambda) {
            Some(mut inner) => {
                inner.remove(key);
                proof {
                    assert(bytes_view(inner.view()) =~= nested_view(before)[lambda@].remove(key@));
                }
                self.store.insert(to_string(lambda), inner);
                proof {
                    assert(self.view() =~= nested_view(before).insert(lambda@, nested_view(before)[lambda@].remove(key@)));
                }
            },
            None => {
                proof {
                    assert(self.store.view() =~= before);
                }
            },
        }
    }

    /// A copy of the whole namespace of `lambda`, if it has one.
    pub fn namespace_copy(&self, lambda: &str) -> (r: Option<StrMap<Vec<u8>>>)
        requires
            self.wf(),
        ensures
            match r {
                Some(m) => m.wf() && self.view().contains_key(lambda@) && bytes_view(m.view()) == self.view()[lambda@],
                None => !self.view().contains_key(lambda@),
            },
    {
        match self.store.get(lambda) {
            Some(inner) => Some(copy_bytes_map(inner)),
            None => None,
        }
    }

    /// Replaces the namespace of `lambda` with `entries`.
    pub fn set_namespace(&mut self, lambda: &str, entries: StrMap<Vec<u8>>)
        requires
            old(self).wf(),
            entries.wf(),
        ensures
            final(self).wf(),
            final(self).view() == old(self).view().insert(lambda@, bytes_view(entries.view())),
    {
        self.store.insert(to_string(lambda), entries);
        proof {
            assert(self.view() =~= old(self).view().insert(lambda@, bytes_view(entries.view())));
        }
    }

    /// Adds `entries` to the namespace of `lambda`; a key present in both takes the
    /// value from `entries`.
    pub fn merge_namespace(&mut self, lambda: &str, entries: &StrMap<Vec<u8>>)
        requires
            old(self).wf(),
            entries.wf(),
        ensures
            final(self).wf(),
            final(self).view() == old(self).view().insert(
                lambda@,
                namespace(old(self).view(), lambda@).union_prefer_right(bytes_view(entries.view())),
            ),
    {
        let ghost before = self.store.view();
        let mut inner = match self.store.remove(lambda) {
            Some(m) => m,
            None => StrMap::new(),
        };
        let ghost base = bytes_view(inner.view());
        proof {
            assert(base =~= namespace(nested_view(before), lambda@));
        }
        let n = entries.len();
        let ghost keys = entries.key_seq();
        proof {
            entries.lemma_keys();
        }
        let mut i: usize = 0;
        while i < n
            invariant
                entries.wf(),
                inner.wf(),
                keys == entries.key_seq(),
                n == keys.len(),
                i <= n,
                bytes_view(inner.view()) == base.union_prefer_right(
                    bytes_view(entries.view()).restrict(keys.take(i as int).to_set()),
                ),
            decreases n - i,
        {
            let k = entries.key_at(i);
            let v = entries.value_at(i);
            let ghost kk = keys[i as int];
            let ghost before = inner.view();
            let c = copy_bytes(v);
            let kc = k.clone();
            let ghost cv = c;
            inner.insert(kc, c);
            proof {
                assert(keys.take(i + 1).to_set() == keys.take(i as int).to_set().insert(kk)) by {
                    assert(keys.take(i + 1) == keys.take(i as int).push(kk));
                    keys.take(i as int).lemma_push_to_set_commute(kk);
                }
                let prev = base.union_prefer_right(bytes_view(entries.view()).restrict(keys.take(i as int).to_set()));
                let target = base.union_prefer_right(bytes_view(entries.view()).restrict(keys.take(i + 1).to_set()));
                assert(inner.view() == before.insert(kk, cv));
                assert forall|x: Seq<char>| #[trigger] bytes_view(inner.view()).contains_key(x) implies
                    target.contains_key(x) && bytes_view(inner.view())[x] == target[x] by {
                    if x != kk {
                        assert(bytes_view(before).contains_key(x));
                        assert(bytes_view(before)[x] == prev[x]);
                    }
                }
                assert forall|x: Seq<char>| #[trigger] target.contains_key(x) implies bytes_view(inner.view()).contains_key(x) by {
                    if x != kk {
                        assert(prev.contains_key(x));
                        assert(bytes_view(before).contains_key(x));
                    }
                }
                assert(bytes_view(inner.view()) =~= target);
            }
            i = i + 1;
        }
        proof {
            assert(keys.take(n as int) == keys);
            assert(bytes_view(entries.view()).restrict(keys.to_set()) =~= bytes_view(entries.view()));
        }
        self.store.insert(to_string(lambda), inner);
        proof {
            assert(self.view() =~= nested_view(before).insert(
                lambda@,
                namespace(nested_view(before), lambda@).union_prefer_right(bytes_view(entries.view())),
            ));
        }
    }

    /// Drops the whole namespace of `lambda`.
    pub fn clear_namespace(&mut self, lambda: &str)
        requires
            old(self).wf(),
        ensures
            final(self).wf(),
            final(self).view() == old(self).view().remove(lambda@),
    {
        self.store.remove(lambda);
        proof {
            assert(self.view() =~= old(self).view().remove(lambda@));
        }
    }
}

impl Default for LambdaKV {
    fn default() -> (r: Self)
        ensures
            r.wf(),
            r.view() == Map::<Seq<char>, Map<Seq<char>, Seq<u8>>>::empty(),
    {
        LambdaKV::new()
    }
}

} // verus!

verus! {

/// Input of a host `kv_get`: which lambda to read (its own when absent or empty) and
/// which key.
pub struct KVGetInput {
    pub lambda: Option<String>,
    pub key: String,
}

/// Input of a host `kv_set`.
pub struct KVSetInput {
    pub key: String,
    pub value: Vec<u8>,
}

/// Input of a host `kv_remove`.
pub struct KVRemoveInput {
    pub key: String,
}

/// Key-value access bound to one lambda: it writes only its own namespace, and reads
/// its own and those it was granted.
#[derive(Clone)]
pub struct LambdaKVContext {
    lambda_name: String,
    allowed_kv_read: Vec<String>,
}

/// Whether `target` may be read by a lambda named `own` that was granted `allowed`.
pub open spec fn readable(own: Seq<char>, allowed: Seq<Seq<char>>, target: Seq<char>) -> bool {
    target == own || allowed.contains(target)
}

/// The namespace a get request reads: the one named, unless none or an empty one is.
pub open spec fn requested_target(own: Seq<char>, requested: Option<Seq<char>>) -> Seq<char> {
    match requested {
        Some(t) => if t.len() > 0 { t } else { own },
        None => own,
    }
}

/// The view of an optional string.
pub open spec fn opt_view(o: Option<String>) -> Option<Seq<char>> {
    match o {
        Some(s) => Some(s@),
        None => None,
    }
}

impl LambdaKVContext {
    /// The lambda's own name.
    pub closed spec fn own(&self) -> Seq<char> {
        self.lambda_name@
    }

    /// The lambdas it was granted read access to.
    pub closed spec fn granted(&self) -> Seq<Seq<char>> {
        views(self.allowed_kv_read@)
    }

    pub fn new(lambda_name: &str, allowed_kv_read: Vec<String>) -> (r: Self)
        ensures
            r.own() == lambda_name@,
            r.granted() == views(allowed_kv_read@),
    {
        LambdaKVContext { lambda_name: to_string(lambda_name), allowed_kv_read }
    }

    /// The lambda's own name.
    pub fn lambda_name(&self) -> (r: &str)
        ensures
            r@ == self.own(),
    {
        self.lambda_name.as_str()
    }

    /// Whether reading the namespace of `target_lambda` is allowed.
    pub fn can_read(&self, target_lambda: &str) -> (r: bool)
        ensures
            r == readable(self.own(), self.granted(), target_lambda@),
    {
        if str_eq(target_lambda, self.lambda_name.as_str()) {
            return true;
        }
        let mut i: usize = 0;
        while i < self.allowed_kv_read.len()
            invariant
                i <= self.allowed_kv_read@.len(),
                target_lambda@ != self.own(),
                forall|j: int| 0 <= j < i ==> self.granted()[j] != target_lambda@,
            decreases self.allowed_kv_read@.len() - i,
        {
            if str_eq(self.allowed_kv_read[i].as_str(), target_lambda) {
                assert(self.granted()[i as int] == target_lambda@);
                return true;
            }
            i = i + 1;
        }
        proof {
            if self.granted().contains(target_lambda@) {
                let j = choose|j: int| 0 <= j < self.granted().len() && self.granted()[j] == target_lambda@;
                assert(self.granted()[j] != target_lambda@);
            }
        }
        false
    }

    /// The namespace a get request reads.
    pub fn target_of(&self, requested: &Option<String>) -> (r: String)
        ensures
            r@ == requested_target(self.own(), opt_view(*requested)),
    {
        match requested {
            Some(t) => {
                if !t.as_str().is_empty() {
                    t.clone()
                } else {
                    self.lambda_name.clone()
                }
            },
            None => self.lambda_name.clone(),
        }
    }

    /// Serves a get request: the value, or `None` when it is absent or reading that
    /// lambda is not allowed.
    pub fn kv_get(&self, kv: &LambdaKV, input: &KVGetInput) -> (r: Option<Vec<u8>>)
        requires
            kv.wf(),
        ensures
            ({
                let target = requested_target(self.own(), opt_view(input.lambda));
                match r {
                    Some(v) => readable(self.own(), self.granted(), target)
                        && nested_get(kv.view(), target, input.key@) == Some(v@),
                    None => !readable(self.own(), self.granted(), target)
                        || nested_get(kv.view(), target, input.key@) is None,
                }
            }),
    {
        let target = self.target_of(&input.lambda);
        if !self.can_read(target.as_str()) {
            return None;
        }
        kv.get_raw(target.as_str(), input.key.as_str())
    }

    /// Serves a set request: always into the lambda's own namespace. Returns 0.
    pub fn kv_set(&self, kv: &mut LambdaKV, input: KVSetInput) -> (r: i64)
        requires
            old(kv).wf(),
        ensures
            r == 0,
            final(kv).wf(),
            final(kv).view() == old(kv).view().insert(
                self.own(),
                namespace(old(kv).view(), self.own()).insert(input.key@, input.value@),
            ),
    {
        kv.set_raw(self.lambda_name.as_str(), input.key.as_str(), input.value);
        0
    }

    /// Serves a remove request, always from the lambda's own namespace: 0 when an
    /// entry was removed, -1 (not found) when the key was absent, the store unchanged.
    pub fn kv_remove(&self, kv: &mut LambdaKV, input: &KVRemoveInput) -> (r: i64)
        requires
            old(kv).wf(),
        ensures
            final(kv).wf(),
            nested_get(old(kv).view(), self.own(), input.key@) is None ==> r == -1 && final(kv).view()
                == old(kv).view(),
            nested_get(old(kv).view(), self.own(), input.key@) is Some ==> r == 0 && final(kv).view()
                == old(kv).view().insert(self.own(), old(kv).view()[self.own()].remove(input.key@)),
    {
        match kv.get_raw(self.lambda_name.as_str(), input.key.as_str()) {
            None => -1,
            Some(_) => {
                kv.remove(self.lambda_name.as_str(), input.key.as_str());
                0
            },
        }
    }

    /// The lambdas it can read: itself first, then those it was granted.
    pub fn list_readable(&self) -> (r: Vec<String>)
        ensures
            views(r@) == seq![self.own()] + self.granted(),
    {
        let mut r: Vec<String> = Vec::new();
        r.push(self.lambda_name.clone());
        let ghost first = r@;
        crate::text::extend_cloned(&mut r, &self.allowed_kv_read);
        assert(views(first) =~= seq![self.own()]);
        r
    }

    /// The lambdas it can write: only itself.
    pub fn list_writable(&self) -> (r: Vec<String>)
        ensures
            views(r@) == seq![self.own()],
    {
        let mut r: Vec<String> = Vec::new();
        r.push(self.lambda_name.clone());
        assert(views(r@) =~= seq![self.own()]);
        r
    }
}

/// Shared store of all plugins: plugin name, then user, then key, then raw value.
pub struct PluginKV {
    store: StrMap<LambdaKV>,
}

impl PluginKV {
    pub closed spec fn wf(&self) -> bool {
        &&& self.store.wf()
        &&& forall|k: Seq<char>| #[trigger] self.store.view().contains_key(k) ==> self.store.view()[k].wf()
    }

    /// Plugin, then user, then key, then value.
    pub closed spec fn view(&self) -> Map<Seq<char>, Map<Seq<char>, Map<Seq<char>, Seq<u8>>>> {
        self.store.view().map_values(|m: LambdaKV| m.view())
    }

    /// The value stored for `(plugin, user, key)`, if any.
    pub open spec fn lookup(&self, plugin: Seq<char>, user: Seq<char>, key: Seq<char>) -> Option<Seq<u8>> {
        if self.view().contains_key(plugin) {
            nested_get(self.view()[plugin], user, key)
        } else {
            None
        }
    }

    /// An empty store.
    pub fn new() -> (r: Self)
        ensures
            r.wf(),
            r.view() == Map::<Seq<char>, Map<Seq<char>, Map<Seq<char>, Seq<u8>>>>::empty(),
    {
        let r = PluginKV { store: StrMap::new() };
        assert(r.view() =~= Map::<Seq<char>, Map<Seq<char>, Map<Seq<char>, Seq<u8>>>>::empty());
        r
    }

    /// Stores raw bytes for `(plugin, user, key)`.
    pub fn set_raw(&mut self, plugin: &str, user: &str, key: &str, value: Vec<u8>)
        requires
            old(self).wf(),
        ensures
            final(self).wf(),
            final(self).view() == old(self).view().insert(
                plugin@,
                ({
                    let users = if old(self).view().contains_key(plugin@) {
                        old(self).view()[plugin@]
                    } else {
                        Map::empty()
                    };
                    users.insert(user@, namespace(users, user@).insert(key@, value@))
                }),
            ),
    {
        let ghost before = self.store.view();
        let mut inner = match self.store.remove(plugin) {
            Some(m) => m,
            None => LambdaKV::new(),
        };
        inner.set_raw(user, key, value);
        self.store.insert(to_string(plugin), inner);
        proof {
            assert(self.view() =~= before.map_values(|m: LambdaKV| m.view()).insert(
                plugin@,
                ({
                    let users = if old(self).view().contains_key(plugin@) {
                        old(self).view()[plugin@]
                    } else {
                        Map::empty()
                    };
                    users.insert(user@, namespace(users, user@).insert(key@, value@))
                }),
            ));
        }
    }

    /// The raw bytes stored for `(plugin, user, key)`, if any.
    pub fn get_raw(&self, plugin: &str, user: &str, key: &str) -> (r: Option<Vec<u8>>)
        requires
            self.wf(),
        ensures
            match r {
                Some(v) => self.lookup(plugin@, user@, key@) == Some(v@),
                None => self.lookup(plugin@, user@, key@) is None,
            },
    {
        match self.store.get(plugin) {
            Some(inner) => inner.get_raw(user, key),
            None => None,
        }
    }

    /// Removes `(plugin, user, key)`; nothing happens if it is absent.
    pub fn remove(&mut self, plugin: &str, user: &str, key: &str)
        requires
            old(self).wf(),
        ensures
            final(self).wf(),
            final(self).view() == if old(self).view().contains_key(plugin@) && old(self).view()[plugin@].contains_key(user@) {
                old(self).view().insert(
                    plugin@,
                    old(self).view()[plugin@].insert(user@, old(self).view()[plugin@][user@].remove(key@)),
                )
            } else {
                old(self).view()
            },
    {
        let ghost before = self.store.view();
        match self.store.remove(plugin) {
            Some(mut inner) => {
                inner.remove(user, key);
                self.store.insert(to_string(plugin), inner);
                proof {
                    if old(self).view()[plugin@].contains_key(user@) {
                        assert(self.view() =~= old(self).view().insert(
                            plugin@,
                            old(self).view()[plugin@].insert(user@, old(self).view()[plugin@][user@].remove(key@)),
                        ));
                    } else {
                        assert(self.view() =~= old(self).view());
                    }
                }
            },
            None => {
                proof {
                    assert(self.store.view() =~= before);
                }
            },
        }
    }
}

impl Default for PluginKV {
    fn default() -> (r: Self)
        ensures
            r.wf(),
            r.view() == Map::<Seq<char>, Map<Seq<char>, Map<Seq<char>, Seq<u8>>>>::empty(),
    {
        PluginKV::new()
    }
}

/// In-memory execution histories: for each execution, the recorded results of its
/// steps, so that an execution can be replayed.
pub struct HistoryStore {
    cache: LambdaKV,
}

impl HistoryStore {
    pub closed spec fn wf(&self) -> bool {
        self.cache.wf()
    }

    /// Execution id, then step id, then recorded result.
    pub closed spec fn view(&self) -> Map<Seq<char>, Map<Seq<char>, Seq<u8>>> {
        self.cache.view()
    }

    /// An empty store.
    pub fn new() -> (r: Self)
        ensures
            r.wf(),
            r.view() == Map::<Seq<char>, Map<Seq<char>, Seq<u8>>>::empty(),
    {
        HistoryStore { cache: LambdaKV::new() }
    }

    /// A copy of the history of an execution, if it has one.
    pub fn get(&self, execution_id: &str) -> (r: Option<StrMap<Vec<u8>>>)
        requires
            self.wf(),
        ensures
            match r {
                Some(m) => m.wf() && self.view().contains_key(execution_id@)
                    && bytes_view(m.view()) == self.view()[execution_id@],
                None => !self.view().contains_key(execution_id@),
            },
    {
        self.cache.namespace_copy(execution_id)
    }

    /// Replaces the history of an execution.
    pub fn set(&mut self, execution_id: &str, history: StrMap<Vec<u8>>)
        requires
            old(self).wf(),
            history.wf(),
        ensures
            final(self).wf(),
            final(self).view() == old(self).view().insert(execution_id@, bytes_view(history.view())),
    {
        self.cache.set_namespace(execution_id, history);
    }

    /// Adds steps to the history of an execution; a step recorded in both keeps the
    /// new result.
    pub fn merge(&mut self, execution_id: &str, new_history: &StrMap<Vec<u8>>)
        requires
            old(self).wf(),
            new_history.wf(),
        ensures
            final(self).wf(),
            final(self).view() == old(self).view().insert(
                execution_id@,
                namespace(old(self).view(), execution_id@).union_prefer_right(bytes_view(new_history.view())),
            ),
    {
        self.cache.merge_namespace(execution_id, new_history);
    }

    /// Forgets the history of an execution.
    pub fn clear(&mut self, execution_id: &str)
        requires
            old(self).wf(),
        ensures
            final(self).wf(),
            final(self).view() == old(self).view().remove(execution_id@),
    {
        self.cache.clear_namespace(execution_id);
    }
}

impl Default for HistoryStore {
    fn default() -> (r: Self)
        ensures
            r.wf(),
            r.view() == Map::<Seq<char>, Map<Seq<char>, Seq<u8>>>::empty(),
    {
        HistoryStore::new()
    }
}

} // verus!
