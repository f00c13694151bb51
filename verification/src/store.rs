//! The store service: one in-memory map from string keys to string values,
//! answering `Get` and `Set`.
//!
//! The map is modelled as a `Map<Seq<char>, Seq<char>>`; every operation's
//! contract is stated over that model. The caller (the process around this
//! library) is expected to serialize access, handing out `&mut` for `Set`:
//! exclusive access is thus enforced by the borrow rules rather than by a
//! particular locking primitive.

use vstd::prelude::*;

verus! {

use vstd::hash_map::StringHashMap;

use crate::messages::{GetRequest, GetResponse, SetRequest, SetResponse};

/// Configuration of the store service: the address its listener binds.
#[derive(Debug)]
pub struct Config {
    pub address: String,
}

impl Config {
    /// Builds a configuration from an already-parsed address. Reading the
    /// address from the command line is the surrounding process's business.
    pub fn new(address: String) -> (config: Self)
        ensures
            config.address@ == address@,
    {
        Self { address }
    }

    /// The configuration used when no argument overrides it: the listener
    /// binds a loopback address on a fixed port.
    pub fn new_empty() -> (config: Self)
        ensures
            config.address@ == "[::1]:50051"@,
    {
        Self { address: "[::1]:50051".to_owned() }
    }
}

/// The canonical map: string keys to string values, keys unique, created
/// empty, mutated only through [`KeyValueStore::set`].
pub struct KeyValueStore {
    store: StringHashMap<String>,
}

impl View for KeyValueStore {
    type V = Map<Seq<char>, Seq<char>>;

    closed spec fn view(&self) -> Map<Seq<char>, Seq<char>> {
        self.store@.map_values(|v: String| v@)
    }
}

impl KeyValueStore {
    /// Creates the store, empty.
    pub fn new() -> (store: Self)
        ensures
            store@ == Map::<Seq<char>, Seq<char>>::empty(),
    {
        let store = Self { store: StringHashMap::new() };
        proof {
            assert(store@ =~= Map::<Seq<char>, Seq<char>>::empty());
        }
        store
    }

    /// Answers `Get`: the value bound to the key, or `None` when the key is
    /// absent. A missing key is a normal, representable outcome, never an
    /// error. The store is not changed.
    pub fn get(&self, request: GetRequest) -> (response: GetResponse)
        ensures
            response.value matches Some(v) ==> self@.contains_key(request.key@) && v@
                == self@[request.key@],
            response.value is None ==> !self@.contains_key(request.key@),
    {
        let value = match self.store.get(request.key.as_str()) {
            Some(v) => Some(v.clone()),
            None => None,
        };
        GetResponse { value }
    }

    /// Answers `Set`: binds the value to the key, overwriting any earlier
    /// binding of the same key, and leaves every other key untouched.
    pub fn set(&mut self, request: SetRequest) -> (response: SetResponse)
        ensures
            final(self)@ == old(self)@.insert(request.key@, request.value@),
    {
        self.store.insert(request.key, request.value);
        proof {
            assert(self@ =~= old(self)@.insert(request.key@, request.value@));
        }
        SetResponse {}
    }
}

/// The map after a run of `Set` operations, applied in the order the store
/// serialized them: each operation is a `(key, value)` pair, and each is one
/// [`KeyValueStore::set`] (whose contract says it inserts that pair).
pub open spec fn apply_sets(
    m: Map<Seq<char>, Seq<char>>,
    ops: Seq<(Seq<char>, Seq<char>)>,
) -> Map<Seq<char>, Seq<char>>
    decreases ops.len(),
{
    if ops.len() == 0 {
        m
    } else {
        apply_sets(m.insert(ops[0].0, ops[0].1), ops.drop_first())
    }
}

/// Runs compose: applying a run and then another is applying their
/// concatenation.
pub proof fn lemma_apply_sets_append(
    m: Map<Seq<char>, Seq<char>>,
    a: Seq<(Seq<char>, Seq<char>)>,
    b: Seq<(Seq<char>, Seq<char>)>,
)
    ensures
        apply_sets(m, a + b) == apply_sets(apply_sets(m, a), b),
    decreases a.len(),
{
    if a.len() == 0 {
        assert(a + b =~= b);
    } else {
        assert((a + b)[0] == a[0]);
        assert((a + b).drop_first() =~= a.drop_first() + b);
        lemma_apply_sets_append(m.insert(a[0].0, a[0].1), a.drop_first(), b);
    }
}

/// One more `Set` at the end of a run inserts its pair into the result.
pub proof fn lemma_apply_sets_push(
    m: Map<Seq<char>, Seq<char>>,
    s: Seq<(Seq<char>, Seq<char>)>,
    op: (Seq<char>, Seq<char>),
)
    ensures
        apply_sets(m, s.push(op)) == apply_sets(m, s).insert(op.0, op.1),
{
    assert(s.push(op) =~= s + seq![op]);
    lemma_apply_sets_append(m, s, seq![op]);
    assert(seq![op][0] == op);
    assert(seq![op].drop_first() =~= Seq::<(Seq<char>, Seq<char>)>::empty());
    assert(apply_sets(
        apply_sets(m, s).insert(op.0, op.1),
        Seq::<(Seq<char>, Seq<char>)>::empty(),
    ) == apply_sets(m, s).insert(op.0, op.1));
    assert(apply_sets(apply_sets(m, s), seq![op]) == apply_sets(m, s).insert(op.0, op.1));
}

/// `Set` operations on other keys leave a key's binding untouched: after any
/// run of operations none of which names `k`, the map binds `k` exactly as it
/// did before.
pub proof fn lemma_other_sets_preserve_key(
    m: Map<Seq<char>, Seq<char>>,
    ops: Seq<(Seq<char>, Seq<char>)>,
    k: Seq<char>,
)
    requires
        forall|i: int| 0 <= i < ops.len() ==> (#[trigger] ops[i]).0 != k,
    ensures
        apply_sets(m, ops).contains_key(k) == m.contains_key(k),
        m.contains_key(k) ==> apply_sets(m, ops)[k] == m[k],
    decreases ops.len(),
{
    if ops.len() > 0 {
        let m1 = m.insert(ops[0].0, ops[0].1);
        assert(forall|i: int|
            0 <= i < ops.drop_first().len() ==> (#[trigger] ops.drop_first()[i]).0 != k);
        lemma_other_sets_preserve_key(m1, ops.drop_first(), k);
    }
}

/// A key never set is absent: starting from the empty map the store is
/// created with, any run of `Set` operations on other keys leaves `Get(k)`
/// with no binding to return.
pub proof fn lemma_unset_key_absent(ops: Seq<(Seq<char>, Seq<char>)>, k: Seq<char>)
    requires
        forall|i: int| 0 <= i < ops.len() ==> (#[trigger] ops[i]).0 != k,
    ensures
        !apply_sets(Map::<Seq<char>, Seq<char>>::empty(), ops).contains_key(k),
{
    lemma_other_sets_preserve_key(Map::<Seq<char>, Seq<char>>::empty(), ops, k);
}

/// After `Set(k, v)` completes, `Get(k)` returns `v` until overwritten: any
/// later run of `Set` operations that never names `k` leaves `k` bound to
/// `v`.
pub proof fn lemma_get_after_set(
    m: Map<Seq<char>, Seq<char>>,
    k: Seq<char>,
    v: Seq<char>,
    later: Seq<(Seq<char>, Seq<char>)>,
)
    requires
        forall|i: int| 0 <= i < later.len() ==> (#[trigger] later[i]).0 != k,
    ensures
        apply_sets(m.insert(k, v), later).contains_key(k),
        apply_sets(m.insert(k, v), later)[k] == v,
{
    lemma_other_sets_preserve_key(m.insert(k, v), later, k);
}

/// Last writer wins: after `Set(k, v)` and then `Set(k, v2)` complete in
/// that order, `Get(k)` returns `v2`.
pub proof fn lemma_last_set_wins(
    m: Map<Seq<char>, Seq<char>>,
    k: Seq<char>,
    v: Seq<char>,
    v2: Seq<char>,
)
    ensures
        m.insert(k, v).insert(k, v2).contains_key(k),
        m.insert(k, v).insert(k, v2)[k] == v2,
        m.insert(k, v).insert(k, v2) == m.insert(k, v2),
{
    assert(m.insert(k, v).insert(k, v2) =~= m.insert(k, v2));
}

/// `Set` is idempotent: repeating `Set(k, v)` leaves the map exactly as one
/// `Set(k, v)` does, so `Get(k)` keeps returning `v`. (`Get` is idempotent
/// by its signature alone: it borrows the store immutably and changes
/// nothing.)
pub proof fn lemma_set_idempotent(m: Map<Seq<char>, Seq<char>>, k: Seq<char>, v: Seq<char>)
    ensures
        m.insert(k, v).insert(k, v) == m.insert(k, v),
{
    assert(m.insert(k, v).insert(k, v) =~= m.insert(k, v));
}

/// Repeating `Set(k, v)` any number of times leaves the map exactly as one
/// `Set(k, v)` does.
pub proof fn lemma_repeated_set_idempotent(
    m: Map<Seq<char>, Seq<char>>,
    k: Seq<char>,
    v: Seq<char>,
    n: nat,
)
    requires
        n >= 1,
    ensures
        apply_sets(m, Seq::new(n, |i: int| (k, v))) == m.insert(k, v),
    decreases n,
{
    let ops = Seq::new(n, |i: int| (k, v));
    assert(ops[0] == (k, v));
    assert(apply_sets(m, ops) == apply_sets(m.insert(k, v), ops.drop_first()));
    if n == 1 {
        assert(ops.drop_first() =~= Seq::<(Seq<char>, Seq<char>)>::empty());
        assert(apply_sets(m.insert(k, v), ops.drop_first()) == m.insert(k, v));
    } else {
        assert(ops.drop_first() =~= Seq::new((n - 1) as nat, |i: int| (k, v)));
        lemma_repeated_set_idempotent(m.insert(k, v), k, v, (n - 1) as nat);
        lemma_set_idempotent(m, k, v);
    }
}

/// What a `Get` returns is what the last completed `Set` of that key wrote:
/// if the operation at position `i` is the last one in the run that names
/// `k`, then afterwards `k` is bound to exactly the value that operation
/// carried.
pub proof fn lemma_value_from_last_set(ops: Seq<(Seq<char>, Seq<char>)>, i: int, k: Seq<char>)
    requires
        0 <= i < ops.len(),
        ops[i].0 == k,
        forall|j: int| i < j < ops.len() ==> (#[trigger] ops[j]).0 != k,
    ensures
        apply_sets(Map::<Seq<char>, Seq<char>>::empty(), ops).contains_key(k),
        apply_sets(Map::<Seq<char>, Seq<char>>::empty(), ops)[k] == ops[i].1,
{
    let empty = Map::<Seq<char>, Seq<char>>::empty();
    let pre = ops.take(i + 1);
    let post = ops.skip(i + 1);
    assert(ops =~= pre + post);
    lemma_apply_sets_append(empty, pre, post);
    assert(pre =~= ops.take(i).push(ops[i]));
    lemma_apply_sets_push(empty, ops.take(i), ops[i]);
    assert(forall|j: int| 0 <= j < post.len() ==> (#[trigger] post[j]).0 != k) by {
        assert(forall|j: int| 0 <= j < post.len() ==> post[j] == (#[trigger] ops[i + 1 + j]));
    }
    lemma_other_sets_preserve_key(apply_sets(empty, pre), post, k);
}

/// No lost writes: when concurrent `Set` calls to pairwise distinct keys are
/// serialized in whatever order the lock admits, every one of them is
/// visible afterwards — each key is bound to the value its own `Set` wrote.
pub proof fn lemma_distinct_sets_all_visible(
    m: Map<Seq<char>, Seq<char>>,
    ops: Seq<(Seq<char>, Seq<char>)>,
)
    requires
        forall|i: int, j: int|
            0 <= i < j < ops.len() ==> (#[trigger] ops[i]).0 != (#[trigger] ops[j]).0,
    ensures
        forall|i: int|
            0 <= i < ops.len() ==> apply_sets(m, ops).contains_key((#[trigger] ops[i]).0)
                && apply_sets(m, ops)[ops[i].0] == ops[i].1,
    decreases ops.len(),
{
    if ops.len() > 0 {
        let m1 = m.insert(ops[0].0, ops[0].1);
        let rest = ops.drop_first();
        assert(forall|i: int| 0 <= i < rest.len() ==> (#[trigger] rest[i]).0 != ops[0].0);
        lemma_other_sets_preserve_key(m1, rest, ops[0].0);
        lemma_distinct_sets_all_visible(m1, rest);
        assert(forall|i: int|
            1 <= i < ops.len() ==> apply_sets(m, ops).contains_key((#[trigger] ops[i]).0)
                && apply_sets(m, ops)[ops[i].0] == ops[i].1) by {
            assert(forall|i: int|
                1 <= i < ops.len() ==> rest[i - 1] == #[trigger] ops[i]);
        }
    }
}

} // verus!
