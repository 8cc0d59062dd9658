//! The heap's object model, as far as the execution core reads and writes
//! it.
//!
//! Objects live in a [`Heap`] and are named by handles. Each object holds
//! plain data properties under keys that are array indices or strings, a
//! prototype link, an extensibility flag, and the function-specific fields
//! the core touches (the home object and private names). A prototype always
//! has a smaller handle than the objects it serves, so prototype chains are
//! acyclic by construction.

use vstd::prelude::*;
use crate::value::{handle_ok, strict_eq_model, JsValue, ValueModel};

verus! {

/// A property key: an array index or a string's code units.
///
/// The two spaces are kept apart; keys made from integer values use the
/// index space for indices and decimal strings beyond it.
#[derive(Debug)]
pub enum PropertyKey {
    /// An array-index key.
    Index(u32),
    /// A string key.
    Str(Vec<u16>),
}

/// The model of a property key.
pub ghost enum KeyModel {
    /// An array-index key.
    Index(u32),
    /// A string key.
    Str(Seq<u16>),
}

impl View for PropertyKey {
    type V = KeyModel;

    /// The key's model.
    open spec fn view(&self) -> KeyModel {
        match *self {
            PropertyKey::Index(i) => KeyModel::Index(i),
            PropertyKey::Str(ref s) => KeyModel::Str(s@),
        }
    }
}

impl PropertyKey {
    /// Whether two keys are the same.
    pub fn key_eq(&self, other: &PropertyKey) -> (r: bool)
        ensures
            r == (self@ == other@),
    {
        match *self {
            PropertyKey::Index(a) => match *other {
                PropertyKey::Index(b) => a == b,
                _ => false,
            },
            PropertyKey::Str(ref a) => match *other {
                PropertyKey::Str(ref b) => {
                    proof {
                        assert(*self is Str);
                        assert(self@ == KeyModel::Str(a@));
                    }
                    if a.len() != b.len() {
                        proof {
                            assert(a@.len() != b@.len());
                        }
                        return false;
                    }
                    let mut i: usize = 0;
                    while i < a.len()
                        invariant
                            i <= a@.len(),
                            a@.len() == b@.len(),
                            self@ == KeyModel::Str(a@),
                            other@ == KeyModel::Str(b@),
                            forall|j: int| 0 <= j < i ==> a@[j] == b@[j],
                        decreases a@.len() - i,
                    {
                        if a[i] != b[i] {
                            proof {
                                assert(a@[i as int] != b@[i as int]);
                            }
                            return false;
                        }
                        i = i + 1;
                    }
                    proof {
                        assert(a@ =~= b@);
                    }
                    true
                }
                _ => false,
            },
        }
    }
}

impl Clone for PropertyKey {
    /// The clone is the same key.
    fn clone(&self) -> (res: Self)
        ensures
            res@ == self@,
    {
        match *self {
            PropertyKey::Index(i) => PropertyKey::Index(i),
            PropertyKey::Str(ref s) => {
                let mut v: Vec<u16> = Vec::new();
                let mut i: usize = 0;
                while i < s.len()
                    invariant
                        i <= s@.len(),
                        v@ == s@.take(i as int),
                    decreases s@.len() - i,
                {
                    v.push(s[i]);
                    assert(v@ =~= s@.take(i + 1));
                    i = i + 1;
                }
                assert(s@.take(s@.len() as int) =~= s@);
                PropertyKey::Str(v)
            }
        }
    }
}

/// One data property: its value and attributes.
#[derive(Debug)]
pub struct PropertyDescriptor {
    /// The property's value.
    pub value: JsValue,
    /// Whether assignments may change the value.
    pub writable: bool,
    /// Whether enumeration lists the property.
    pub enumerable: bool,
    /// Whether the property may be redefined or removed.
    pub configurable: bool,
}

/// The model of one data property.
pub ghost struct DescModel {
    /// The property's value.
    pub value: ValueModel,
    /// Whether assignments may change the value.
    pub writable: bool,
    /// Whether enumeration lists the property.
    pub enumerable: bool,
    /// Whether the property may be redefined or removed.
    pub configurable: bool,
}

impl View for PropertyDescriptor {
    type V = DescModel;

    /// The descriptor's model.
    open spec fn view(&self) -> DescModel {
        DescModel {
            value: self.value@,
            writable: self.writable,
            enumerable: self.enumerable,
            configurable: self.configurable,
        }
    }
}

impl PropertyDescriptor {
    /// Whether the held value keeps the value representation invariant.
    pub open spec fn valid(&self) -> bool {
        self.value.valid()
    }

    /// A copy of this descriptor.
    pub fn duplicate(&self) -> (r: PropertyDescriptor)
        ensures
            r@ == self@,
            r.valid() == self.valid(),
    {
        PropertyDescriptor {
            value: self.value.clone(),
            writable: self.writable,
            enumerable: self.enumerable,
            configurable: self.configurable,
        }
    }
}

/// One heap object, as the core sees it.
#[derive(Debug)]
pub struct ObjectRecord {
    /// The prototype's handle, if there is one.
    pub proto: Option<usize>,
    /// The object's own data properties.
    pub properties: Vec<(PropertyKey, PropertyDescriptor)>,
    /// Whether new properties may be added.
    pub extensible: bool,
    /// Whether the object is a function.
    pub function: bool,
    /// The function's home object, used for superclass member resolution.
    pub home_object: Option<usize>,
    /// The private names installed on the object.
    pub private_names: Vec<u32>,
}

/// The model of one heap object.
pub ghost struct ObjModel {
    /// The prototype's handle, if there is one.
    pub proto: Option<int>,
    /// The object's own data properties.
    pub props: Map<KeyModel, DescModel>,
    /// Whether new properties may be added.
    pub extensible: bool,
    /// Whether the object is a function.
    pub function: bool,
    /// The function's home object.
    pub home_object: Option<int>,
    /// The private names installed on the object.
    pub private_names: Set<u32>,
}

/// The property map an entry list stands for.
pub open spec fn props_map(l: Seq<(PropertyKey, PropertyDescriptor)>) -> Map<KeyModel, DescModel>
    decreases l.len(),
{
    if l.len() == 0 {
        Map::empty()
    } else {
        props_map(l.drop_last()).insert(l.last().0@, l.last().1@)
    }
}

/// No two entries share a key.
pub open spec fn keys_unique(l: Seq<(PropertyKey, PropertyDescriptor)>) -> bool {
    forall|i: int, j: int| 0 <= i < j < l.len() ==> (#[trigger] l[i]).0@ != (#[trigger] l[j]).0@
}

/// A list without an entry for a key maps no value to it.
pub proof fn lemma_props_map_absent(l: Seq<(PropertyKey, PropertyDescriptor)>, k: KeyModel)
    requires
        forall|i: int| 0 <= i < l.len() ==> (#[trigger] l[i]).0@ != k,
    ensures
        !props_map(l).contains_key(k),
    decreases l.len(),
{
    if l.len() == 0 {
    } else {
        assert(l.last() == l[l.len() - 1]);
        lemma_props_map_absent(l.drop_last(), k);
    }
}

/// The entry at an index gives the mapped value, when keys are unique.
pub proof fn lemma_props_map_found(l: Seq<(PropertyKey, PropertyDescriptor)>, i: int)
    requires
        keys_unique(l),
        0 <= i < l.len(),
    ensures
        props_map(l).contains_key(l[i].0@),
        props_map(l)[l[i].0@] == l[i].1@,
    decreases l.len(),
{
    if i == l.len() - 1 {
        assert(l.last() == l[i]);
    } else {
        assert(l.last() == l[l.len() - 1]);
        assert(l[i].0@ != l[l.len() - 1].0@);
        lemma_props_map_found(l.drop_last(), i);
    }
}

/// Replacing the entry at an index updates the map at its key alone.
pub proof fn lemma_props_map_update(
    l: Seq<(PropertyKey, PropertyDescriptor)>,
    i: int,
    e: (PropertyKey, PropertyDescriptor),
)
    requires
        keys_unique(l),
        0 <= i < l.len(),
        e.0@ == l[i].0@,
    ensures
        props_map(l.update(i, e)) == props_map(l).insert(e.0@, e.1@),
    decreases l.len(),
{
    let lu = l.update(i, e);
    if i == l.len() - 1 {
        assert(lu.drop_last() =~= l.drop_last());
        assert(lu.last() == e);
        assert(props_map(lu) =~= props_map(l).insert(e.0@, e.1@));
    } else {
        assert(lu.last() == l.last());
        assert(lu.drop_last() =~= l.drop_last().update(i, e));
        lemma_props_map_update(l.drop_last(), i, e);
        assert(l.last() == l[l.len() - 1]);
        assert(e.0@ != l.last().0@);
        assert(props_map(lu) =~= props_map(l).insert(e.0@, e.1@));
    }
}

impl ObjectRecord {
    /// The object's model.
    pub open spec fn model(&self) -> ObjModel {
        ObjModel {
            proto: match self.proto {
                Some(p) => Some(p as int),
                None => None,
            },
            props: props_map(self.properties@),
            extensible: self.extensible,
            function: self.function,
            home_object: match self.home_object {
                Some(h) => Some(h as int),
                None => None,
            },
            private_names: self.private_names@.to_set(),
        }
    }

    /// The record's representation invariant: unique keys, valid values.
    pub open spec fn wf(&self) -> bool {
        keys_unique(self.properties@) && forall|i: int|
            0 <= i < self.properties@.len() ==> (#[trigger] self.properties@[i]).1.valid()
    }
}


/// The shared heap of objects, addressed by handle.
#[derive(Debug)]
pub struct Heap {
    objects: Vec<ObjectRecord>,
}

impl Heap {
    /// The number of objects.
    pub closed spec fn len_spec(&self) -> int {
        self.objects@.len() as int
    }

    /// The model of the object at a handle.
    pub closed spec fn obj(&self, h: int) -> ObjModel {
        self.objects@[h].model()
    }

    /// Whether a handle names an object.
    pub open spec fn valid_handle(&self, h: int) -> bool {
        0 <= h < self.len_spec()
    }

    /// The heap invariant: every record is well formed, every prototype
    /// has a smaller handle than the objects it serves, and every stored
    /// object handle names an object of this heap.
    pub closed spec fn wf(&self) -> bool {
        (forall|i: int|
            0 <= i < self.objects@.len() ==> (#[trigger] self.objects@[i]).wf() && match self
                .objects@[i].proto {
                Some(p) => p < i,
                None => true,
            }) && (forall|i: int, j: int|
            0 <= i < self.objects@.len() && 0 <= j < self.objects@[i].properties@.len()
                ==> handle_ok(
                (#[trigger] self.objects@[i].properties@[j]).1@.value,
                self.objects@.len() as int,
            ))
    }

    /// Every property a well-formed heap hands out holds handles into the
    /// heap.
    pub proof fn lemma_props_ok(&self, h: int, k: KeyModel)
        requires
            self.wf(),
            self.valid_handle(h),
            self.obj(h).props.contains_key(k),
        ensures
            handle_ok(self.obj(h).props[k].value, self.len_spec()),
    {
        lemma_props_map_to_entry(self.objects@[h].properties@, k);
    }

    /// A property found along a chain of a well-formed heap holds handles
    /// into the heap.
    pub proof fn lemma_chain_lookup_ok(&self, h: int, k: KeyModel)
        requires
            self.wf(),
        ensures
            match self.chain_lookup(h, k) {
                Some(d) => handle_ok(d.value, self.len_spec()),
                None => true,
            },
        decreases h,
    {
        if self.valid_handle(h) {
            if self.obj(h).props.contains_key(k) {
                self.lemma_props_ok(h, k);
            } else {
                match self.obj(h).proto {
                    Some(p) => {
                        if 0 <= p < h {
                            self.lemma_chain_lookup_ok(p, k);
                        }
                    }
                    None => {
                    }
                }
            }
        }
    }

    /// Prototype handles are below their objects' handles.
    pub proof fn lemma_proto_below(&self, h: int)
        requires
            self.wf(),
            self.valid_handle(h),
        ensures
            match self.obj(h).proto {
                Some(p) => 0 <= p < h,
                None => true,
            },
    {
    }

    /// An empty heap.
    pub fn new() -> (r: Heap)
        ensures
            r.wf(),
            r.len_spec() == 0,
    {
        Heap { objects: Vec::new() }
    }

    /// The number of objects.
    pub fn len(&self) -> (n: usize)
        ensures
            n == self.len_spec(),
    {
        self.objects.len()
    }

    /// Allocates a fresh empty object.
    ///
    /// The new object has the given prototype and function flag, no own
    /// properties, and is extensible; its handle is the old heap length.
    pub fn create_object(&mut self, proto: Option<usize>, function: bool) -> (h: usize)
        requires
            old(self).wf(),
            match proto {
                Some(p) => old(self).valid_handle(p as int),
                None => true,
            },
        ensures
            final(self).wf(),
            h == old(self).len_spec(),
            final(self).len_spec() == old(self).len_spec() + 1,
            forall|j: int|
                old(self).valid_handle(j) ==> #[trigger] final(self).obj(j) == old(self).obj(j),
            final(self).obj(h as int) == (ObjModel {
                proto: match proto {
                    Some(p) => Some(p as int),
                    None => None,
                },
                props: Map::<KeyModel, DescModel>::empty(),
                extensible: true,
                function,
                home_object: None,
                private_names: Set::<u32>::empty(),
            }),
    {
        let h = self.objects.len();
        let record = ObjectRecord {
            proto,
            properties: Vec::new(),
            extensible: true,
            function,
            home_object: None,
            private_names: Vec::new(),
        };
        proof {
            assert(props_map(record.properties@) =~= Map::<KeyModel, DescModel>::empty());
            assert(record.private_names@.to_set() =~= Set::<u32>::empty());
        }
        self.objects.push(record);
        h
    }

    /// The index of an object's own property under a key, if any.
    fn find_own(&self, h: usize, key: &PropertyKey) -> (r: Option<usize>)
        requires
            self.wf(),
            self.valid_handle(h as int),
        ensures
            match r {
                Some(i) => i < self.objects@[h as int].properties@.len()
                    && self.objects@[h as int].properties@[i as int].0@ == key@ && self.obj(
                    h as int,
                ).props.contains_key(key@) && self.obj(h as int).props[key@] == self.objects@[
                    h as int].properties@[i as int].1@,
                None => !self.obj(h as int).props.contains_key(key@),
            },
    {
        let record = &self.objects[h];
        let n = record.properties.len();
        let mut i: usize = 0;
        while i < n
            invariant
                i <= n,
                self.wf(),
                self.valid_handle(h as int),
                record == &self.objects@[h as int],
                n == record.properties@.len(),
                forall|j: int| 0 <= j < i ==> (#[trigger] record.properties@[j]).0@ != key@,
            decreases n - i,
        {
            if record.properties[i].0.key_eq(key) {
                proof {
                    lemma_props_map_found(record.properties@, i as int);
                }
                return Some(i);
            }
            i = i + 1;
        }
        proof {
            lemma_props_map_absent(record.properties@, key@);
        }
        None
    }

    /// A copy of an object's own property under a key, if any.
    pub fn get_own_property(&self, h: usize, key: &PropertyKey) -> (r: Option<PropertyDescriptor>)
        requires
            self.wf(),
            self.valid_handle(h as int),
        ensures
            match r {
                Some(d) => self.obj(h as int).props.contains_key(key@) && self.obj(
                    h as int,
                ).props[key@] == d@ && d.valid(),
                None => !self.obj(h as int).props.contains_key(key@),
            },
    {
        match self.find_own(h, key) {
            Some(i) => {
                let record = &self.objects[h];
                Some(record.properties[i].1.duplicate())
            }
            None => None,
        }
    }

    /// Whether a key is found on an object or along its prototype chain.
    pub closed spec fn chain_has(&self, h: int, k: KeyModel) -> bool
        decreases h,
    {
        if !self.valid_handle(h) {
            false
        } else if self.obj(h).props.contains_key(k) {
            true
        } else {
            match self.obj(h).proto {
                None => false,
                Some(p) => if 0 <= p < h {
                    self.chain_has(p, k)
                } else {
                    false
                },
            }
        }
    }

    /// The property found for a key on an object or along its prototype
    /// chain, if any.
    pub closed spec fn chain_lookup(&self, h: int, k: KeyModel) -> Option<DescModel>
        decreases h,
    {
        if !self.valid_handle(h) {
            None
        } else if self.obj(h).props.contains_key(k) {
            Some(self.obj(h).props[k])
        } else {
            match self.obj(h).proto {
                None => None,
                Some(p) => if 0 <= p < h {
                    self.chain_lookup(p, k)
                } else {
                    None
                },
            }
        }
    }

    /// Whether a key is found on an object or along its prototype chain.
    pub fn has_property(&self, h: usize, key: &PropertyKey) -> (r: bool)
        requires
            self.wf(),
            self.valid_handle(h as int),
        ensures
            r == self.chain_has(h as int, key@),
    {
        let mut cur = h;
        loop
            invariant
                self.wf(),
                self.valid_handle(cur as int),
                self.chain_has(h as int, key@) == self.chain_has(cur as int, key@),
            decreases cur,
        {
            match self.find_own(cur, key) {
                Some(_) => {
                    return true;
                }
                None => {
                    proof {
                        self.lemma_proto_below(cur as int);
                    }
                    match self.objects[cur].proto {
                        Some(p) => {
                            cur = p;
                        }
                        None => {
                            return false;
                        }
                    }
                }
            }
        }
    }

    /// The property found for a key on an object or along its prototype
    /// chain, if any.
    pub fn get_property(&self, h: usize, key: &PropertyKey) -> (r: Option<PropertyDescriptor>)
        requires
            self.wf(),
            self.valid_handle(h as int),
        ensures
            match r {
                Some(d) => self.chain_lookup(h as int, key@) == Some(d@) && d.valid(),
                None => self.chain_lookup(h as int, key@) is None,
            },
    {
        let mut cur = h;
        loop
            invariant
                self.wf(),
                self.valid_handle(cur as int),
                self.chain_lookup(h as int, key@) == self.chain_lookup(cur as int, key@),
            decreases cur,
        {
            match self.get_own_property(cur, key) {
                Some(d) => {
                    return Some(d);
                }
                None => {
                    proof {
                        self.lemma_proto_below(cur as int);
                    }
                    match self.objects[cur].proto {
                        Some(p) => {
                            cur = p;
                        }
                        None => {
                            return None;
                        }
                    }
                }
            }
        }
    }
}


/// Whether defining a property is allowed on an object's current state:
/// always on a missing key of an extensible object, always over a
/// configurable property, and over a non-configurable one only without
/// loosening it (same enumerability, staying non-configurable, and for a
/// non-writable property neither making it writable nor changing its
/// value).
pub open spec fn define_allowed(obj: ObjModel, k: KeyModel, d: DescModel) -> bool {
    if !obj.props.contains_key(k) {
        obj.extensible
    } else {
        let ex = obj.props[k];
        ex.configurable || (!d.configurable && d.enumerable == ex.enumerable && (ex.writable || (
        !d.writable && strict_eq_model(d.value, ex.value))))
    }
}

/// Whether an assignment to a key on an object takes effect: an own
/// property must be writable; otherwise the prototype chain must not hold
/// the key as non-writable, and the object must be extensible to gain the
/// new property.
pub open spec fn set_allowed(heap: &Heap, h: int, k: KeyModel) -> bool {
    if heap.obj(h).props.contains_key(k) {
        heap.obj(h).props[k].writable
    } else {
        let from_chain = match heap.obj(h).proto {
            Some(p) => heap.chain_lookup(p, k),
            None => None,
        };
        match from_chain {
            Some(d) => d.writable,
            None => heap.obj(h).extensible,
        }
    }
}

/// An object model with one property replaced.
pub open spec fn with_prop(obj: ObjModel, k: KeyModel, d: DescModel) -> ObjModel {
    ObjModel { props: obj.props.insert(k, d), ..obj }
}

impl Heap {
    /// Replaces or inserts the entry of one record under a key, leaving
    /// every other object alone.
    fn put_entry(&mut self, h: usize, key: PropertyKey, desc: PropertyDescriptor)
        requires
            old(self).wf(),
            old(self).valid_handle(h as int),
            desc.valid(),
            handle_ok(desc.value@, old(self).len_spec()),
        ensures
            final(self).wf(),
            final(self).len_spec() == old(self).len_spec(),
            forall|j: int|
                old(self).valid_handle(j) && j != h ==> #[trigger] final(self).obj(j) == old(
                    self,
                ).obj(j),
            final(self).obj(h as int) == with_prop(old(self).obj(h as int), key@, desc@),
    {
        let ghost oldrec = self.objects@[h as int];
        let found = self.find_own(h, &key);
        let mut record = self.objects.remove(h);
        match found {
            Some(i) => {
                let _ = record.properties.remove(i);
                proof {
                    assert(keys_unique(record.properties@)) by {
                        assert forall|x: int, y: int|
                            0 <= x < y < record.properties@.len() implies (
                        #[trigger] record.properties@[x]).0@ != (
                        #[trigger] record.properties@[y]).0@ by {
                            if x < i {
                                assert(record.properties@[x] == oldrec.properties@[x]);
                            } else {
                                assert(record.properties@[x] == oldrec.properties@[x + 1]);
                            }
                            if y < i {
                                assert(record.properties@[y] == oldrec.properties@[y]);
                            } else {
                                assert(record.properties@[y] == oldrec.properties@[y + 1]);
                            }
                        }
                    }
                    assert forall|x: int|
                        0 <= x < record.properties@.len() implies (
                    #[trigger] record.properties@[x]).0@ != key@ by {
                        if x < i {
                            assert(record.properties@[x] == oldrec.properties@[x]);
                        } else {
                            assert(record.properties@[x] == oldrec.properties@[x + 1]);
                        }
                    }
                    lemma_props_map_remove(oldrec.properties@, i as int);
                }
            }
            None => {
                proof {
                    assert forall|x: int|
                        0 <= x < record.properties@.len() implies (
                    #[trigger] record.properties@[x]).0@ != key@ by {
                        if record.properties@[x].0@ == key@ {
                            lemma_props_map_found(record.properties@, x);
                        }
                    }
                }
            }
        }
        proof {
            lemma_props_map_absent(record.properties@, key@);
        }
        let ghost before_push = record.properties@;
        record.properties.push((key, desc));
        proof {
            assert(record.properties@.drop_last() =~= before_push);
            lemma_props_map_push(before_push, record.properties@.last());
        }
        self.objects.insert(h, record);
        proof {
            assert(self.objects@ =~= old(self).objects@.update(
                h as int,
                self.objects@[h as int],
            ));
            assert(final(self).obj(h as int).props =~= with_prop(
                old(self).obj(h as int),
                key@,
                desc@,
            ).props);
            assert(final(self).obj(h as int) == with_prop(old(self).obj(h as int), key@, desc@));
        }
    }

    /// Defines an own property, as the ordinary object semantics allow.
    ///
    /// Returns whether the definition took effect; a rejected definition
    /// leaves the heap unchanged.
    pub fn define_own_property(&mut self, h: usize, key: PropertyKey, desc: PropertyDescriptor)
        -> (r: bool)
        requires
            old(self).wf(),
            old(self).valid_handle(h as int),
            desc.valid(),
            handle_ok(desc.value@, old(self).len_spec()),
        ensures
            final(self).wf(),
            final(self).len_spec() == old(self).len_spec(),
            r == define_allowed(old(self).obj(h as int), key@, desc@),
            forall|j: int|
                old(self).valid_handle(j) && j != h ==> #[trigger] final(self).obj(j) == old(
                    self,
                ).obj(j),
            final(self).obj(h as int) == if r {
                with_prop(old(self).obj(h as int), key@, desc@)
            } else {
                old(self).obj(h as int)
            },
    {
        let allowed = match self.find_own(h, &key) {
            None => self.objects[h].extensible,
            Some(i) => {
                let record = &self.objects[h];
                let ex = &record.properties[i].1;
                ex.configurable || (!desc.configurable && desc.enumerable == ex.enumerable && (
                ex.writable || (!desc.writable && desc.value.strict_equals(&ex.value))))
            }
        };
        if allowed {
            self.put_entry(h, key, desc);
            true
        } else {
            proof {
                assert(final(self).obj(h as int) == old(self).obj(h as int));
            }
            false
        }
    }

    /// Assigns a value to a key, as the ordinary non-strict assignment
    /// semantics allow.
    ///
    /// Returns whether the assignment took effect; a rejected assignment
    /// leaves the heap unchanged, which non-strict code silently ignores.
    pub fn set(&mut self, h: usize, key: PropertyKey, value: JsValue) -> (r: bool)
        requires
            old(self).wf(),
            old(self).valid_handle(h as int),
            value.valid(),
            handle_ok(value@, old(self).len_spec()),
        ensures
            final(self).wf(),
            final(self).len_spec() == old(self).len_spec(),
            r == set_allowed(&old(self), h as int, key@),
            forall|j: int|
                old(self).valid_handle(j) && j != h ==> #[trigger] final(self).obj(j) == old(
                    self,
                ).obj(j),
            !r ==> final(self).obj(h as int) == old(self).obj(h as int),
            r ==> final(self).obj(h as int) == with_prop(
                old(self).obj(h as int),
                key@,
                if old(self).obj(h as int).props.contains_key(key@) {
                    DescModel { value: value@, ..old(self).obj(h as int).props[key@] }
                } else {
                    DescModel { value: value@, writable: true, enumerable: true, configurable: true }
                },
            ),
    {
        match self.find_own(h, &key) {
            Some(i) => {
                let record = &self.objects[h];
                let writable = record.properties[i].1.writable;
                let enumerable = record.properties[i].1.enumerable;
                let configurable = record.properties[i].1.configurable;
                if writable {
                    self.put_entry(
                        h,
                        key,
                        PropertyDescriptor { value, writable: true, enumerable, configurable },
                    );
                    true
                } else {
                    false
                }
            }
            None => {
                proof {
                    self.lemma_proto_below(h as int);
                }
                let inherited_blocks = match self.objects[h].proto {
                    Some(p) => match self.get_property(p, &key) {
                        Some(d) => !d.writable,
                        None => false,
                    },
                    None => false,
                };
                if inherited_blocks {
                    return false;
                }
                let inherited_found = match self.objects[h].proto {
                    Some(p) => {
                        proof {
                            lemma_chain_has_lookup(self, p as int, key@);
                        }
                        self.has_property(p, &key)
                    }
                    None => false,
                };
                if inherited_found || self.objects[h].extensible {
                    self.put_entry(
                        h,
                        key,
                        PropertyDescriptor {
                            value,
                            writable: true,
                            enumerable: true,
                            configurable: true,
                        },
                    );
                    true
                } else {
                    false
                }
            }
        }
    }

    /// The value found for a key on an object or its prototype chain, or
    /// `undefined` where there is none.
    pub fn get_value(&self, h: usize, key: &PropertyKey) -> (r: JsValue)
        requires
            self.wf(),
            self.valid_handle(h as int),
        ensures
            r.valid(),
            handle_ok(r@, self.len_spec()),
            r@ == match self.chain_lookup(h as int, key@) {
                Some(d) => d.value,
                None => ValueModel::Undefined,
            },
    {
        proof {
            self.lemma_chain_lookup_ok(h as int, key@);
        }
        match self.get_property(h, key) {
            Some(d) => d.value,
            None => JsValue::Undefined,
        }
    }

    /// Records a function's home object.
    pub fn set_home_object(&mut self, h: usize, home: usize)
        requires
            old(self).wf(),
            old(self).valid_handle(h as int),
        ensures
            final(self).wf(),
            final(self).len_spec() == old(self).len_spec(),
            forall|j: int|
                old(self).valid_handle(j) && j != h ==> #[trigger] final(self).obj(j) == old(
                    self,
                ).obj(j),
            final(self).obj(h as int) == (ObjModel {
                home_object: Some(home as int),
                ..old(self).obj(h as int)
            }),
    {
        let mut record = self.objects.remove(h);
        record.home_object = Some(home);
        self.objects.insert(h, record);
        proof {
            assert(self.objects@ =~= old(self).objects@.update(
                h as int,
                self.objects@[h as int],
            ));
        }
    }

    /// Installs a private name on an object.
    pub fn add_private_name(&mut self, h: usize, id: u32)
        requires
            old(self).wf(),
            old(self).valid_handle(h as int),
        ensures
            final(self).wf(),
            final(self).len_spec() == old(self).len_spec(),
            forall|j: int|
                old(self).valid_handle(j) && j != h ==> #[trigger] final(self).obj(j) == old(
                    self,
                ).obj(j),
            final(self).obj(h as int) == (ObjModel {
                private_names: old(self).obj(h as int).private_names.insert(id),
                ..old(self).obj(h as int)
            }),
    {
        let mut record = self.objects.remove(h);
        let ghost before = record.private_names@;
        record.private_names.push(id);
        proof {
            assert(record.private_names@ =~= before.push(id));
            assert(record.private_names@.to_set() =~= before.to_set().insert(id)) by {
                let cur = record.private_names@;
                assert forall|a: u32| #[trigger] cur.contains(a) implies before.contains(a) || a
                    == id by {
                    let w = choose|j: int| 0 <= j < cur.len() && cur[j] == a;
                    if w < before.len() {
                        assert(before[w] == a);
                    }
                }
                assert forall|a: u32| before.contains(a) implies cur.contains(a) by {
                    let w = choose|j: int| 0 <= j < before.len() && before[j] == a;
                    assert(cur[w] == a);
                }
                assert(cur[cur.len() - 1] == id);
                assert(cur.contains(id));
            }
        }
        self.objects.insert(h, record);
        proof {
            assert(self.objects@ =~= old(self).objects@.update(
                h as int,
                self.objects@[h as int],
            ));
        }
    }

    /// Whether a private name is installed on an object.
    pub fn has_private_name(&self, h: usize, id: u32) -> (r: bool)
        requires
            self.wf(),
            self.valid_handle(h as int),
        ensures
            r == self.obj(h as int).private_names.contains(id),
    {
        let record = &self.objects[h];
        let n = record.private_names.len();
        let mut i: usize = 0;
        while i < n
            invariant
                i <= n,
                self.wf(),
                self.valid_handle(h as int),
                record == &self.objects@[h as int],
                n == record.private_names@.len(),
                forall|j: int| 0 <= j < i ==> record.private_names@[j] != id,
            decreases n - i,
        {
            if record.private_names[i] == id {
                proof {
                    assert(record.private_names@[i as int] == id);
                    assert(record.private_names@.contains(id));
                }
                return true;
            }
            i = i + 1;
        }
        proof {
            if record.private_names@.to_set().contains(id) {
                assert(record.private_names@.contains(id));
                let w = choose|j: int|
                    0 <= j < record.private_names@.len() && record.private_names@[j] == id;
                assert(false);
            }
        }
        false
    }

    /// Whether an object is a function.
    pub fn is_function(&self, h: usize) -> (r: bool)
        requires
            self.wf(),
            self.valid_handle(h as int),
        ensures
            r == self.obj(h as int).function,
    {
        self.objects[h].function
    }

    /// The prototype handle of an object, if it has one.
    pub fn prototype_of(&self, h: usize) -> (r: Option<usize>)
        requires
            self.wf(),
            self.valid_handle(h as int),
        ensures
            match r {
                Some(p) => self.obj(h as int).proto == Some(p as int) && 0 <= p < h,
                None => self.obj(h as int).proto is None,
            },
    {
        proof {
            self.lemma_proto_below(h as int);
        }
        self.objects[h].proto
    }
}

/// A mapped key comes from some entry of the list.
pub proof fn lemma_props_map_to_entry(l: Seq<(PropertyKey, PropertyDescriptor)>, k: KeyModel)
    requires
        props_map(l).contains_key(k),
    ensures
        exists|i: int|
            0 <= i < l.len() && (#[trigger] l[i]).0@ == k && l[i].1@ == props_map(l)[k],
    decreases l.len(),
{
    if l.len() > 0 {
        if l.last().0@ == k {
            assert(l[l.len() - 1].0@ == k && l[l.len() - 1].1@ == props_map(l)[k]);
        } else {
            lemma_props_map_to_entry(l.drop_last(), k);
            let w = choose|i: int|
                0 <= i < l.drop_last().len() && (#[trigger] l.drop_last()[i]).0@ == k
                    && l.drop_last()[i].1@ == props_map(l.drop_last())[k];
            assert(l[w].0@ == k && l[w].1@ == props_map(l)[k]);
        }
    }
}

/// Removing the entry at an index leaves the other entries' map.
pub proof fn lemma_props_map_remove(l: Seq<(PropertyKey, PropertyDescriptor)>, i: int)
    requires
        keys_unique(l),
        0 <= i < l.len(),
    ensures
        props_map(l.remove(i)) == props_map(l).remove(l[i].0@),
    decreases l.len(),
{
    let lr = l.remove(i);
    if i == l.len() - 1 {
        assert(lr =~= l.drop_last());
        lemma_props_map_found(l, i);
        assert(l.last() == l[i]);
        lemma_props_map_absent_in(l.drop_last(), l[i].0@);
        assert(props_map(lr) =~= props_map(l).remove(l[i].0@));
    } else {
        assert(lr.last() == l.last());
        assert(lr.drop_last() =~= l.drop_last().remove(i));
        lemma_props_map_remove(l.drop_last(), i);
        assert(l.last() == l[l.len() - 1]);
        assert(l[i].0@ != l.last().0@);
        assert(props_map(lr) =~= props_map(l).remove(l[i].0@));
    }
}

/// A list whose entries all avoid a key maps nothing to it; stated over the
/// prefix form used by removal.
proof fn lemma_props_map_absent_in(l: Seq<(PropertyKey, PropertyDescriptor)>, k: KeyModel)
    requires
        forall|i: int| 0 <= i < l.len() ==> (#[trigger] l[i]).0@ != k,
    ensures
        props_map(l).remove(k) == props_map(l),
{
    lemma_props_map_absent(l, k);
    assert(props_map(l).remove(k) =~= props_map(l));
}

/// A key is found along a chain exactly when the chain lookup yields a
/// property.
pub proof fn lemma_chain_has_lookup(heap: &Heap, h: int, k: KeyModel)
    ensures
        heap.chain_has(h, k) == (heap.chain_lookup(h, k) is Some),
    decreases h,
{
    if heap.valid_handle(h) && !heap.obj(h).props.contains_key(k) {
        match heap.obj(h).proto {
            Some(p) => {
                if 0 <= p < h {
                    lemma_chain_has_lookup(heap, p, k);
                }
            }
            None => {
            }
        }
    }
}

/// Appending an entry inserts its key into the map.
pub proof fn lemma_props_map_push(
    l: Seq<(PropertyKey, PropertyDescriptor)>,
    e: (PropertyKey, PropertyDescriptor),
)
    ensures
        props_map(l.push(e)) == props_map(l).insert(e.0@, e.1@),
{
    assert(l.push(e).drop_last() =~= l);
    assert(l.push(e).last() == e);
}


/// The property key a value coerces to without running user code:
/// strings keep their units, integers in the index space become index
/// keys and other integers decimal string keys, and the remaining
/// primitives their display spellings. Big integers and objects would
/// need conversion outside this core.
pub open spec fn to_property_key_model(m: ValueModel) -> Result<
    KeyModel,
    crate::error::ErrorKind,
> {
    match m {
        ValueModel::Str(s) => Ok(KeyModel::Str(s)),
        ValueModel::Int(n) => if 0 <= n < 4294967296 {
            Ok(KeyModel::Index(n as u32))
        } else {
            Ok(KeyModel::Str(crate::string::decimal_units_signed(n)))
        },
        ValueModel::Bool(b) => Ok(
            KeyModel::Str(
                if b {
                    crate::string::utf16_of("true"@)
                } else {
                    crate::string::utf16_of("false"@)
                },
            ),
        ),
        ValueModel::Null => Ok(KeyModel::Str(crate::string::utf16_of("null"@))),
        ValueModel::Undefined => Ok(KeyModel::Str(crate::string::utf16_of("undefined"@))),
        ValueModel::Big(_) => Err(crate::error::ErrorKind::Type),
        ValueModel::Obj(_) => Err(crate::error::ErrorKind::Type),
    }
}

/// Coerces a value to a property key.
pub fn to_property_key(v: &JsValue) -> (r: crate::error::JsResult<PropertyKey>)
    requires
        v.valid(),
    ensures
        match r {
            Ok(k) => to_property_key_model(v@) == Ok::<KeyModel, crate::error::ErrorKind>(k@),
            Err(e) => to_property_key_model(v@) == Err::<KeyModel, crate::error::ErrorKind>(
                e.kind_spec(),
            ),
        },
{
    match *v {
        JsValue::String(ref s) => Ok(PropertyKey::Str(s.as_str().to_units())),
        JsValue::Integer(n) => {
            if 0 <= n && n < 4294967296 {
                Ok(PropertyKey::Index(n as u32))
            } else {
                Ok(PropertyKey::Str(crate::string::decimal_of_i64(n)))
            }
        }
        JsValue::Boolean(b) => {
            let s = if b {
                crate::string::utf16_from_str("true")
            } else {
                crate::string::utf16_from_str("false")
            };
            Ok(PropertyKey::Str(s))
        }
        JsValue::Null => Ok(PropertyKey::Str(crate::string::utf16_from_str("null"))),
        JsValue::Undefined => Ok(PropertyKey::Str(crate::string::utf16_from_str("undefined"))),
        JsValue::BigInt(_) => Err(
            crate::error::JsError::type_error(
                "big-integer property keys need conversion outside this core",
            ),
        ),
        JsValue::Object(_) => Err(
            crate::error::JsError::type_error(
                "object-to-key coercion runs user code outside this core",
            ),
        ),
    }
}

/// Whether a target handle lies on an object's prototype chain, the
/// object itself excluded.
pub open spec fn in_proto_chain(heap: &Heap, h: int, target: int) -> bool
    decreases h,
{
    if !heap.valid_handle(h) {
        false
    } else {
        match heap.obj(h).proto {
            None => false,
            Some(p) => p == target || (0 <= p < h && in_proto_chain(heap, p, target)),
        }
    }
}

impl Heap {
    /// Whether a target handle lies on an object's prototype chain.
    pub fn proto_chain_contains(&self, h: usize, target: usize) -> (r: bool)
        requires
            self.wf(),
            self.valid_handle(h as int),
        ensures
            r == in_proto_chain(self, h as int, target as int),
    {
        let mut cur = h;
        loop
            invariant
                self.wf(),
                self.valid_handle(cur as int),
                in_proto_chain(self, h as int, target as int) == in_proto_chain(
                    self,
                    cur as int,
                    target as int,
                ),
            decreases cur,
        {
            match self.prototype_of(cur) {
                None => {
                    return false;
                }
                Some(p) => {
                    if p == target {
                        return true;
                    }
                    cur = p;
                }
            }
        }
    }
}


/// The property map of a fresh array-like object over its elements: one
/// writable, enumerable, configurable slot per index, plus a writable,
/// non-enumerable, non-configurable `length`.
pub open spec fn array_props(elems: Seq<ValueModel>) -> Map<KeyModel, DescModel> {
    Map::new(
        |k: KeyModel|
            match k {
                KeyModel::Index(i) => i < elems.len(),
                KeyModel::Str(s) => s == crate::string::utf16_of("length"@),
            },
        |k: KeyModel|
            match k {
                KeyModel::Index(i) => DescModel {
                    value: elems[i as int],
                    writable: true,
                    enumerable: true,
                    configurable: true,
                },
                KeyModel::Str(_) => DescModel {
                    value: ValueModel::Int(elems.len() as int),
                    writable: true,
                    enumerable: false,
                    configurable: false,
                },
            },
    )
}

impl Heap {
    /// Allocates a fresh array-like object holding the given elements in
    /// order.
    pub fn create_array_from_list(&mut self, proto: usize, elements: Vec<JsValue>) -> (h: usize)
        requires
            old(self).wf(),
            old(self).valid_handle(proto as int),
            elements@.len() <= 4294967295,
            forall|i: int|
                0 <= i < elements@.len() ==> (#[trigger] elements@[i]).valid() && handle_ok(
                    elements@[i]@,
                    old(self).len_spec(),
                ),
        ensures
            final(self).wf(),
            h == old(self).len_spec(),
            final(self).len_spec() == old(self).len_spec() + 1,
            forall|j: int|
                old(self).valid_handle(j) ==> #[trigger] final(self).obj(j) == old(self).obj(j),
            final(self).obj(h as int) == (ObjModel {
                proto: Some(proto as int),
                props: array_props(stack_model_of(elements@)),
                extensible: true,
                function: false,
                home_object: None,
                private_names: Set::<u32>::empty(),
            }),
    {
        let h = self.create_object(Some(proto), false);
        let ghost elems = stack_model_of(elements@);
        let n = elements.len();
        let mut i: usize = 0;
        proof {
            assert(self.obj(h as int).props =~= Map::<KeyModel, DescModel>::new(
                |k: KeyModel| k matches KeyModel::Index(x) && x < 0,
                |k: KeyModel| DescModel {
                    value: elems[k->Index_0 as int],
                    writable: true,
                    enumerable: true,
                    configurable: true,
                },
            ));
        }
        while i < n
            invariant
                i <= n,
                n == elements@.len(),
                n <= 4294967295,
                elems == stack_model_of(elements@),
                self.wf(),
                h == old(self).len_spec(),
                self.len_spec() == old(self).len_spec() + 1,
                self.valid_handle(h as int),
                forall|j: int|
                    old(self).valid_handle(j) ==> #[trigger] self.obj(j) == old(self).obj(j),
                forall|j: int|
                    0 <= j < elements@.len() ==> (#[trigger] elements@[j]).valid() && handle_ok(
                        elements@[j]@,
                        old(self).len_spec(),
                    ),
                self.obj(h as int).proto == Some(proto as int),
                self.obj(h as int).extensible,
                !self.obj(h as int).function,
                self.obj(h as int).home_object is None,
                self.obj(h as int).private_names =~= Set::<u32>::empty(),
                self.obj(h as int).props =~= Map::<KeyModel, DescModel>::new(
                    |k: KeyModel| k matches KeyModel::Index(x) && x < i,
                    |k: KeyModel| DescModel {
                        value: elems[k->Index_0 as int],
                        writable: true,
                        enumerable: true,
                        configurable: true,
                    },
                ),
            decreases n - i,
        {
            let desc = PropertyDescriptor {
                value: elements[i].clone(),
                writable: true,
                enumerable: true,
                configurable: true,
            };
            let allowed = self.define_own_property(h, PropertyKey::Index(i as u32), desc);
            proof {
                assert(allowed);
                assert(self.obj(h as int).props =~= Map::<KeyModel, DescModel>::new(
                    |k: KeyModel| k matches KeyModel::Index(x) && x < i + 1,
                    |k: KeyModel| DescModel {
                        value: elems[k->Index_0 as int],
                        writable: true,
                        enumerable: true,
                        configurable: true,
                    },
                ));
            }
            i = i + 1;
        }
        let length_units = crate::string::utf16_from_str("length");
        let length_desc = PropertyDescriptor {
            value: JsValue::Integer(n as i64),
            writable: true,
            enumerable: false,
            configurable: false,
        };
        let allowed = self.define_own_property(h, PropertyKey::Str(length_units), length_desc);
        proof {
            assert(allowed);
            assert(self.obj(h as int).props =~= array_props(elems));
        }
        h
    }
}

/// A non-strict assignment to a non-writable own property is silently
/// ignored: it never takes effect, so the property — the class's
/// `prototype` slot after wiring among them — keeps its value and its
/// object identity.
pub proof fn lemma_non_writable_assignment_ignored(heap: &Heap, h: int, k: KeyModel)
    requires
        heap.obj(h).props.contains_key(k),
        !heap.obj(h).props[k].writable,
    ensures
        !set_allowed(heap, h, k),
{
}

/// The models of a run of values.
pub open spec fn stack_model_of(s: Seq<JsValue>) -> Seq<ValueModel> {
    s.map_values(|v: JsValue| v@)
}

} // verus!
