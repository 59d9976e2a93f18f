//! The managed heap: objects with child slots and data bytes, keyed by
//! stable references, with a count of stack roots per object and a
//! mark-and-sweep collector.
use vstd::prelude::*;

verus! {

/// Errors of the heap.
#[derive(Clone, Copy, Debug, PartialEq, Eq, Structural)]
pub enum HeapError {
    /// The reference counter cannot advance any further.
    Allocation,
    /// The reference does not name an object on the heap.
    ObjectNotFound,
    /// A stack reference count would wrap past its bounds.
    StackReferenceError,
    /// A child index is past the object's child slots.
    ChildIndexOutOfBounds,
    /// The null reference was used where an object is required.
    IllegalNullObjectReferenceUsage,
    /// A data range reaches past the object's data.
    OutOfBoundsObjectDataAccess,
}

pub type HeapResult<T> = Result<T, HeapError>;

/// A reference to a heap object: a non-zero 64-bit identifier.
#[derive(Clone, Copy, Debug, PartialEq, Eq, Hash)]
pub struct ObjectReference {
    id: u64,
}

impl View for ObjectReference {
    type V = u64;

    closed spec fn view(&self) -> u64 {
        self.id
    }
}

impl ObjectReference {
    #[verifier::type_invariant]
    spec fn non_null(self) -> bool {
        self.id != 0
    }

    /// The reference with identifier `n`, or `None` for the null identifier.
    pub fn new_option(n: u64) -> (r: Option<ObjectReference>)
        ensures
            n == 0 ==> r is None,
            n != 0 ==> (r matches Some(o) && o@ == n),
    {
        if n == 0 {
            None
        } else {
            Some(ObjectReference { id: n })
        }
    }

    /// The reference with identifier `n`; the null identifier is an error.
    pub fn new_result(n: u64) -> (r: HeapResult<ObjectReference>)
        ensures
            n == 0 ==> r == Err::<ObjectReference, _>(HeapError::IllegalNullObjectReferenceUsage),
            n != 0 ==> (r matches Ok(o) && o@ == n),
    {
        match ObjectReference::new_option(n) {
            Some(o) => Ok(o),
            None => Err(HeapError::IllegalNullObjectReferenceUsage),
        }
    }

    /// The identifier, as it is written on the stack.
    pub fn get(&self) -> (r: u64)
        ensures
            r == self@,
            r != 0,
    {
        proof {
            use_type_invariant(self);
        }
        self.id
    }
}

impl From<ObjectReference> for u64 {
    fn from(v: ObjectReference) -> (r: u64) {
        v.get()
    }
}

impl vstd::std_specs::convert::FromSpecImpl<ObjectReference> for u64 {
    open spec fn obeys_from_spec() -> bool {
        true
    }

    open spec fn from_spec(v: ObjectReference) -> u64 {
        v@
    }
}

/// The identifiers of an optional reference; `None` stays `None`.
pub open spec fn ref_id(c: Option<ObjectReference>) -> Option<u64> {
    match c {
        Some(r) => Some(r@),
        None => None,
    }
}

/// What an object holds, as plain values.
pub struct ObjectView {
    pub stack_references: u16,
    pub children: Seq<Option<u64>>,
    pub data: Seq<u8>,
}

/// A freshly allocated object: one stack reference, empty child slots and
/// zeroed data.
pub open spec fn fresh_object(n_children: nat, n_data: nat) -> ObjectView {
    ObjectView {
        stack_references: 1,
        children: Seq::new(n_children, |i: int| None),
        data: Seq::new(n_data, |i: int| 0u8),
    }
}

/// An object on the heap.
#[derive(Debug)]
pub struct Object {
    /// a count of stack references to this object
    stack_references: u16,
    /// all objects this object refers to
    children: Vec<Option<ObjectReference>>,
    /// data contained within this object
    data: Vec<u8>,
}

impl View for Object {
    type V = ObjectView;

    closed spec fn view(&self) -> ObjectView {
        ObjectView {
            stack_references: self.stack_references,
            children: Seq::new(self.children@.len(), |i: int| ref_id(self.children@[i])),
            data: self.data@,
        }
    }
}

impl Object {
    fn new(children_length: usize, data_length: usize) -> (r: Object)
        ensures
            r@ == fresh_object(children_length as nat, data_length as nat),
    {
        let mut children: Vec<Option<ObjectReference>> = Vec::new();
        let mut i: usize = 0;
        while i < children_length
            invariant
                i <= children_length,
                children@.len() == i,
                forall|j: int| 0 <= j < i ==> children@[j] is None,
            decreases children_length - i,
        {
            children.push(None);
            i = i + 1;
        }
        let mut data: Vec<u8> = Vec::new();
        let mut k: usize = 0;
        while k < data_length
            invariant
                k <= data_length,
                data@.len() == k,
                forall|j: int| 0 <= j < k ==> data@[j] == 0,
            decreases data_length - k,
        {
            data.push(0);
            k = k + 1;
        }
        let r = Object { stack_references: 1, children, data };
        assert(r@.children =~= fresh_object(children_length as nat, data_length as nat).children);
        assert(r@.data =~= fresh_object(children_length as nat, data_length as nat).data);
        r
    }

    fn set_child(&mut self, index: usize, child: Option<&ObjectReference>) -> (r: HeapResult<()>)
        ensures
            index < old(self)@.children.len() ==> r == Ok::<(), HeapError>(()) && final(self)@
                == (ObjectView {
                children: old(self)@.children.update(
                    index as int,
                    match child {
                        Some(c) => Some(c@),
                        None => None,
                    },
                ),
                ..old(self)@
            }),
            index >= old(self)@.children.len() ==> r == Err::<(), _>(
                HeapError::ChildIndexOutOfBounds,
            ) && final(self)@ == old(self)@,
    {
        if index < self.children.len() {
            let c = match child {
                Some(c) => Some(*c),
                None => None,
            };
            self.children[index] = c;
            assert(self@.children =~= old(self)@.children.update(
                index as int,
                match child {
                    Some(c) => Some(c@),
                    None => None,
                },
            ));
            Ok(())
        } else {
            Err(HeapError::ChildIndexOutOfBounds)
        }
    }

    fn get_child(&self, index: usize) -> (r: HeapResult<Option<ObjectReference>>)
        ensures
            index < self@.children.len() ==> (r matches Ok(c) && ref_id(c) == self@.children[index as int]),
            index >= self@.children.len() ==> r == Err::<Option<ObjectReference>, _>(
                HeapError::ChildIndexOutOfBounds,
            ),
    {
        if index < self.children.len() {
            Ok(self.children[index])
        } else {
            Err(HeapError::ChildIndexOutOfBounds)
        }
    }

    fn get_data_slice(&self, start: usize, length: usize) -> (r: HeapResult<&[u8]>)
        ensures
            start + length <= self@.data.len() ==> (r matches Ok(s) && s@ == self@.data.subrange(
                start as int,
                start + length,
            )),
            start + length > self@.data.len() ==> r == Err::<&[u8], _>(
                HeapError::OutOfBoundsObjectDataAccess,
            ),
    {
        let n = self.data.len();
        if start <= n && length <= n - start {
            Ok(vstd::slice::slice_subrange(self.data.as_slice(), start, start + length))
        } else {
            Err(HeapError::OutOfBoundsObjectDataAccess)
        }
    }

    fn set_data_slice(&mut self, start: usize, bytes: &[u8]) -> (r: HeapResult<()>)
        ensures
            start + bytes@.len() <= old(self)@.data.len() ==> r == Ok::<(), HeapError>(())
                && final(self)@ == (ObjectView {
                data: write_bytes(old(self)@.data, start as int, bytes@),
                ..old(self)@
            }),
            start + bytes@.len() > old(self)@.data.len() ==> r == Err::<(), _>(
                HeapError::OutOfBoundsObjectDataAccess,
            ) && final(self)@ == old(self)@,
    {
        let length = bytes.len();
        let n = self.data.len();
        match if start <= n && length <= n - start {
            Some(start + length)
        } else {
            None
        } {
            Some(end) => {
                {
                    let ghost d0 = self.data@;
                    let mut i: usize = 0;
                    while i < length
                        invariant
                            i <= length,
                            length == bytes@.len(),
                            start + length <= d0.len(),
                            end == start + length,
                            self.data@.len() == d0.len(),
                            self.stack_references == old(self).stack_references,
                            self.children == old(self).children,
                            d0 == old(self).data@,
                            forall|j: int|
                                0 <= j < d0.len() ==> self.data@[j] == if start <= j < start + i {
                                    bytes@[j - start]
                                } else {
                                    d0[j]
                                },
                        decreases length - i,
                    {
                        let at = start + i;
                        self.data[at] = bytes[i];
                        i = i + 1;
                    }
                    assert(self.data@ =~= write_bytes(d0, start as int, bytes@));
                    assert(self@.children =~= old(self)@.children);
                    Ok(())
                }
            },
            None => Err(HeapError::OutOfBoundsObjectDataAccess),
        }
    }
}

/// `d` with the bytes from `start` on replaced by `bytes`.
pub open spec fn write_bytes(d: Seq<u8>, start: int, bytes: Seq<u8>) -> Seq<u8> {
    d.subrange(0, start) + bytes + d.subrange(start + bytes.len(), d.len() as int)
}

/// An object with another count of stack references.
pub open spec fn with_stack_references(o: ObjectView, n: int) -> ObjectView {
    ObjectView { stack_references: n as u16, ..o }
}

/// Adds one stack reference to the object `r`.
pub open spec fn increment_spec(h: Map<u64, ObjectView>, r: u64) -> HeapResult<
    Map<u64, ObjectView>,
> {
    if !h.contains_key(r) {
        Err(HeapError::ObjectNotFound)
    } else if h[r].stack_references == u16::MAX {
        Err(HeapError::StackReferenceError)
    } else {
        Ok(h.insert(r, with_stack_references(h[r], h[r].stack_references + 1)))
    }
}

/// Takes one stack reference from the object `r`.
pub open spec fn decrement_spec(h: Map<u64, ObjectView>, r: u64) -> HeapResult<
    Map<u64, ObjectView>,
> {
    if !h.contains_key(r) {
        Err(HeapError::ObjectNotFound)
    } else if h[r].stack_references == 0 {
        Err(HeapError::StackReferenceError)
    } else {
        Ok(h.insert(r, with_stack_references(h[r], h[r].stack_references - 1)))
    }
}

/// Writes child slot `index` of `parent`.
pub open spec fn set_child_spec(
    h: Map<u64, ObjectView>,
    parent: u64,
    index: int,
    child: Option<u64>,
) -> HeapResult<Map<u64, ObjectView>> {
    if !h.contains_key(parent) {
        Err(HeapError::ObjectNotFound)
    } else if index >= h[parent].children.len() {
        Err(HeapError::ChildIndexOutOfBounds)
    } else {
        Ok(
            h.insert(
                parent,
                ObjectView { children: h[parent].children.update(index, child), ..h[parent] },
            ),
        )
    }
}

/// Reads child slot `index` of `parent`.
pub open spec fn get_child_spec(h: Map<u64, ObjectView>, parent: u64, index: int) -> HeapResult<
    Option<u64>,
> {
    if !h.contains_key(parent) {
        Err(HeapError::ObjectNotFound)
    } else if index >= h[parent].children.len() {
        Err(HeapError::ChildIndexOutOfBounds)
    } else {
        Ok(h[parent].children[index])
    }
}

/// Reads `length` data bytes of `r` from `start` on.
pub open spec fn data_slice_spec(h: Map<u64, ObjectView>, r: u64, start: int, length: int) -> HeapResult<
    Seq<u8>,
> {
    if !h.contains_key(r) {
        Err(HeapError::ObjectNotFound)
    } else if start + length > h[r].data.len() {
        Err(HeapError::OutOfBoundsObjectDataAccess)
    } else {
        Ok(h[r].data.subrange(start, start + length))
    }
}

/// Writes `bytes` into the data of `r` from `start` on.
pub open spec fn write_data_spec(h: Map<u64, ObjectView>, r: u64, start: int, bytes: Seq<u8>) -> HeapResult<
    Map<u64, ObjectView>,
> {
    if !h.contains_key(r) {
        Err(HeapError::ObjectNotFound)
    } else if start + bytes.len() > h[r].data.len() {
        Err(HeapError::OutOfBoundsObjectDataAccess)
    } else {
        Ok(h.insert(r, ObjectView { data: write_bytes(h[r].data, start, bytes), ..h[r] }))
    }
}

/// The result of a heap operation that changes the heap: on success the new
/// objects, on failure the error and the objects as they were.
pub open spec fn heap_changed(
    r: HeapResult<()>,
    spec_result: HeapResult<Map<u64, ObjectView>>,
    before: Map<u64, ObjectView>,
    after: Map<u64, ObjectView>,
) -> bool {
    match spec_result {
        Ok(h) => r == Ok::<(), HeapError>(()) && after == h,
        Err(e) => r == Err::<(), HeapError>(e) && after == before,
    }
}

/// An object whose stack reference count is positive: a root of the
/// collector.
pub open spec fn is_root(h: Map<u64, ObjectView>, r: u64) -> bool {
    h.contains_key(r) && h[r].stack_references > 0
}

/// Child slot `i` of `p` holds `c`, and both are on the heap.
pub open spec fn child_edge(h: Map<u64, ObjectView>, p: u64, i: int, c: u64) -> bool {
    &&& h.contains_key(p)
    &&& h.contains_key(c)
    &&& 0 <= i < h[p].children.len()
    &&& h[p].children[i] == Some(c)
}

/// `r` is reached from a root by at most `k` child edges.
pub open spec fn reachable_within(h: Map<u64, ObjectView>, r: u64, k: nat) -> bool
    decreases k,
{
    if k == 0 {
        is_root(h, r)
    } else {
        reachable_within(h, r, (k - 1) as nat) || exists|p: u64, i: int|
            #![trigger child_edge(h, p, i, r)]
            reachable_within(h, p, (k - 1) as nat) && child_edge(h, p, i, r)
    }
}

/// `r` is reached from a root through child edges.
pub open spec fn reachable(h: Map<u64, ObjectView>, r: u64) -> bool {
    exists|k: nat| reachable_within(h, r, k)
}

/// The objects that the collector keeps: those reachable from a root.
pub open spec fn collected(h: Map<u64, ObjectView>) -> Map<u64, ObjectView> {
    h.restrict(Set::new(|r: u64| reachable(h, r)))
}

/// A freshly allocated object with `k` data bytes reads as `k` zero bytes.
pub proof fn lemma_fresh_data_zeroed(h: Map<u64, ObjectView>, r: u64, n_children: nat, k: nat)
    ensures
        data_slice_spec(h.insert(r, fresh_object(n_children, k)), r, 0, k as int) == Ok::<
            Seq<u8>,
            HeapError,
        >(Seq::new(k, |i: int| 0u8)),
{
    assert(fresh_object(n_children, k).data.subrange(0, k as int) =~= Seq::new(k, |i: int| 0u8));
}

/// References are handed out in increasing order, whatever heap calls come
/// between two allocations. `counters` holds the counter before each call of
/// a run (each heap method keeps it or raises it by one, so it never goes
/// down); an allocation before the run returned `first` and left the counter
/// above it, and an allocation at the end of the run returns the last counter.
pub proof fn lemma_references_increase(first: u64, counters: Seq<u64>)
    requires
        counters.len() > 0,
        first < counters[0],
        forall|k: int| 0 <= k < counters.len() - 1 ==> #[trigger] counters[k] <= counters[k + 1],
    ensures
        first < counters.last(),
    decreases counters.len(),
{
    if counters.len() > 1 {
        lemma_references_increase(first, counters.drop_last());
    }
}

/// The heap: objects by reference, and the counter that names the next one.
///
/// References are handed out in increasing order from 1 and never reused;
/// once the counter reaches `u64::MAX` every further allocation fails.
#[derive(Debug)]
pub struct Heap {
    counter: u64,
    slots: Vec<Option<Object>>,
}

impl View for Heap {
    type V = Map<u64, ObjectView>;

    closed spec fn view(&self) -> Map<u64, ObjectView> {
        Map::new(
            |r: u64| 1 <= r < self.counter && self.slots@[r - 1] is Some,
            |r: u64| self.slots@[r - 1]->Some_0@,
        )
    }
}

impl Heap {
    /// The identifier that the next allocation hands out.
    pub closed spec fn next_id(&self) -> u64 {
        self.counter
    }

    pub closed spec fn slots_wf(&self) -> bool {
        &&& 1 <= self.counter
        &&& self.slots@.len() == self.counter - 1
    }

    /// The heap's invariant: every object's reference is below the counter,
    /// and its child slots and data bytes can be indexed by `usize`.
    pub open spec fn wf(&self) -> bool {
        &&& self.slots_wf()
        &&& 1 <= self.next_id()
        &&& forall|r: u64| #[trigger] self@.contains_key(r) ==> 1 <= r < self.next_id()
        &&& forall|r: u64| #[trigger]
            self@.contains_key(r) ==> self@[r].children.len() <= usize::MAX
                && self@[r].data.len() <= usize::MAX
    }

    pub fn new() -> (r: Heap)
        ensures
            r.wf(),
            r@ == Map::<u64, ObjectView>::empty(),
            r.next_id() == 1,
    {
        let r = Heap { counter: 1, slots: Vec::new() };
        assert(r@ =~= Map::<u64, ObjectView>::empty());
        r
    }

    fn get_and_increment_counter(&mut self) -> (r: HeapResult<u64>)
        requires
            old(self).slots_wf(),
        ensures
            old(self).counter == u64::MAX ==> r == Err::<u64, _>(HeapError::Allocation)
                && *final(self) == *old(self),
            old(self).counter < u64::MAX ==> r == Ok::<u64, HeapError>(old(self).counter)
                && final(self).counter == old(self).counter + 1 && final(self).slots
                == old(self).slots,
    {
        let n = self.counter;
        match self.counter.checked_add(1) {
            Some(next) => {
                self.counter = next;
                Ok(n)
            },
            None => Err(HeapError::Allocation),
        }
    }

    /// Allocates an object with `children_length` empty child slots and
    /// `data_length` zero bytes of data, and one stack reference.
    pub fn allocate(&mut self, children_length: usize, data_length: usize) -> (r: HeapResult<
        ObjectReference,
    >)
        requires
            old(self).wf(),
        ensures
            final(self).wf(),
            old(self).next_id() == u64::MAX ==> r == Err::<ObjectReference, _>(
                HeapError::Allocation,
            ) && final(self)@ == old(self)@ && final(self).next_id() == old(self).next_id(),
            old(self).next_id() < u64::MAX ==> (r matches Ok(o) && o@ == old(self).next_id()
                && final(self).next_id() == old(self).next_id() + 1
                && final(self)@ == old(self)@.insert(o@, fresh_object(children_length as nat, data_length as nat))),
    {
        let obj = Object::new(children_length, data_length);
        let id = self.get_and_increment_counter()?;
        self.slots.push(Some(obj));
        let o = ObjectReference { id };
        assert(self@ =~= old(self)@.insert(
            id,
            fresh_object(children_length as nat, data_length as nat),
        ));
        Ok(o)
    }

    fn index_of(&self, obj_ref: &ObjectReference) -> (r: Option<usize>)
        requires
            self.slots_wf(),
        ensures
            self@.contains_key(obj_ref@) ==> r == Some((obj_ref@ - 1) as usize),
            !self@.contains_key(obj_ref@) ==> r is None,
            r matches Some(i) ==> i < self.slots@.len() && self.slots@[i as int] is Some && i
                == obj_ref@ - 1,
    {
        let id = obj_ref.get();
        if id < self.counter {
            let n = self.slots.len();
            assert(id - 1 < n);
            let i = (id - 1) as usize;
            if self.slots[i].is_some() {
                assert(self@.contains_key(id));
                Some(i)
            } else {
                assert(!self@.contains_key(id));
                None
            }
        } else {
            assert(!self@.contains_key(id));
            None
        }
    }

    /// Removes the object in slot `i` for an update; `put_object` puts it back.
    fn take_object(&mut self, i: usize) -> (obj: Object)
        requires
            i < old(self).slots@.len(),
            old(self).slots@[i as int] is Some,
        ensures
            obj == old(self).slots@[i as int]->Some_0,
            final(self).slots@ == old(self).slots@.update(i as int, None),
            final(self).counter == old(self).counter,
    {
        let mut slot: Option<Object> = None;
        std::mem::swap(&mut slot, &mut self.slots[i]);
        slot.unwrap()
    }

    fn put_object(&mut self, i: usize, obj: Object)
        requires
            i < old(self).slots@.len(),
        ensures
            final(self).slots@ == old(self).slots@.update(i as int, Some(obj)),
            final(self).counter == old(self).counter,
    {
        self.slots[i] = Some(obj);
    }

    /// Adds one stack reference to an object, and returns the reference.
    pub fn increment_stack_references(&mut self, obj_ref: &ObjectReference) -> (r: HeapResult<
        ObjectReference,
    >)
        requires
            old(self).wf(),
        ensures
            final(self).wf(),
            final(self).next_id() == old(self).next_id(),
            match increment_spec(old(self)@, obj_ref@) {
                Ok(h) => r == Ok::<ObjectReference, HeapError>(*obj_ref) && final(self)@ == h,
                Err(e) => r == Err::<ObjectReference, HeapError>(e) && final(self)@ == old(self)@,
            },
    {
        match self.index_of(obj_ref) {
            None => Err(HeapError::ObjectNotFound),
            Some(i) => {
                let mut obj = self.take_object(i);
                if obj.stack_references == u16::MAX {
                    self.put_object(i, obj);
                    assert(self.slots@ =~= old(self).slots@);
                    return Err(HeapError::StackReferenceError);
                }
                obj.stack_references = obj.stack_references + 1;
                self.put_object(i, obj);
                assert(self@ =~= old(self)@.insert(
                    obj_ref@,
                    with_stack_references(
                        old(self)@[obj_ref@],
                        old(self)@[obj_ref@].stack_references + 1,
                    ),
                ));
                Ok(*obj_ref)
            },
        }
    }

    /// Takes one stack reference from an object.
    pub fn decrement_stack_references(&mut self, obj_ref: ObjectReference) -> (r: HeapResult<()>)
        requires
            old(self).wf(),
        ensures
            final(self).wf(),
            final(self).next_id() == old(self).next_id(),
            heap_changed(r, decrement_spec(old(self)@, obj_ref@), old(self)@, final(self)@),
    {
        match self.index_of(&obj_ref) {
            None => Err(HeapError::ObjectNotFound),
            Some(i) => {
                let mut obj = self.take_object(i);
                if obj.stack_references == 0 {
                    self.put_object(i, obj);
                    assert(self.slots@ =~= old(self).slots@);
                    return Err(HeapError::StackReferenceError);
                }
                obj.stack_references = obj.stack_references - 1;
                self.put_object(i, obj);
                assert(self@ =~= old(self)@.insert(
                    obj_ref@,
                    with_stack_references(
                        old(self)@[obj_ref@],
                        old(self)@[obj_ref@].stack_references - 1,
                    ),
                ));
                Ok(())
            },
        }
    }

    /// The number of stack references to an object.
    pub fn get_stack_references(&self, obj_ref: &ObjectReference) -> (r: HeapResult<u16>)
        requires
            self.wf(),
        ensures
            self@.contains_key(obj_ref@) ==> r == Ok::<u16, HeapError>(
                self@[obj_ref@].stack_references,
            ),
            !self@.contains_key(obj_ref@) ==> r == Err::<u16, HeapError>(HeapError::ObjectNotFound),
    {
        match self.index_of(obj_ref) {
            None => Err(HeapError::ObjectNotFound),
            Some(i) => match &self.slots[i] {
                Some(obj) => Ok(obj.stack_references),
                None => Err(HeapError::ObjectNotFound),
            },
        }
    }

    /// Writes child slot `index` of `parent`; `None` empties the slot.
    pub fn set_child(
        &mut self,
        parent: &ObjectReference,
        index: usize,
        child: Option<&ObjectReference>,
    ) -> (r: HeapResult<()>)
        requires
            old(self).wf(),
        ensures
            final(self).wf(),
            final(self).next_id() == old(self).next_id(),
            heap_changed(
                r,
                set_child_spec(
                    old(self)@,
                    parent@,
                    index as int,
                    match child {
                        Some(c) => Some(c@),
                        None => None,
                    },
                ),
                old(self)@,
                final(self)@,
            ),
    {
        match self.index_of(parent) {
            None => Err(HeapError::ObjectNotFound),
            Some(i) => {
                let mut obj = self.take_object(i);
                let r = obj.set_child(index, child);
                self.put_object(i, obj);
                if r.is_err() {
                    assert(self@ =~= old(self)@);
                } else {
                    assert(self@ =~= set_child_spec(
                        old(self)@,
                        parent@,
                        index as int,
                        match child {
                            Some(c) => Some(c@),
                            None => None,
                        },
                    )->Ok_0);
                }
                r
            },
        }
    }

    /// Reads child slot `index` of `parent`.
    pub fn get_child(&self, parent: &ObjectReference, index: usize) -> (r: HeapResult<
        Option<ObjectReference>,
    >)
        requires
            self.wf(),
        ensures
            match get_child_spec(self@, parent@, index as int) {
                Ok(c) => r matches Ok(x) && ref_id(x) == c,
                Err(e) => r == Err::<Option<ObjectReference>, HeapError>(e),
            },
    {
        match self.index_of(parent) {
            None => Err(HeapError::ObjectNotFound),
            Some(i) => match &self.slots[i] {
                Some(obj) => obj.get_child(index),
                None => Err(HeapError::ObjectNotFound),
            },
        }
    }

    /// Reads `length` data bytes of an object from `start` on.
    pub fn get_data_slice(&self, obj_ref: &ObjectReference, start: usize, length: usize) -> (r:
        HeapResult<&[u8]>)
        requires
            self.wf(),
        ensures
            match data_slice_spec(self@, obj_ref@, start as int, length as int) {
                Ok(d) => r matches Ok(s) && s@ == d,
                Err(e) => r == Err::<&[u8], HeapError>(e),
            },
    {
        match self.index_of(obj_ref) {
            None => Err(HeapError::ObjectNotFound),
            Some(i) => match &self.slots[i] {
                Some(obj) => obj.get_data_slice(start, length),
                None => Err(HeapError::ObjectNotFound),
            },
        }
    }

    /// Writes `bytes` into the data of an object from `start` on.
    pub fn set_data_slice(&mut self, obj_ref: &ObjectReference, start: usize, bytes: &[u8]) -> (r:
        HeapResult<()>)
        requires
            old(self).wf(),
        ensures
            final(self).wf(),
            final(self).next_id() == old(self).next_id(),
            heap_changed(
                r,
                write_data_spec(old(self)@, obj_ref@, start as int, bytes@),
                old(self)@,
                final(self)@,
            ),
    {
        match self.index_of(obj_ref) {
            None => Err(HeapError::ObjectNotFound),
            Some(i) => {
                let mut obj = self.take_object(i);
                let r = obj.set_data_slice(start, bytes);
                self.put_object(i, obj);
                if r.is_err() {
                    assert(self@ =~= old(self)@);
                } else {
                    assert(self@ =~= write_data_spec(
                        old(self)@,
                        obj_ref@,
                        start as int,
                        bytes@,
                    )->Ok_0);
                }
                r
            },
        }
    }
}

/// The number of unmarked entries.
spec fn count_unmarked(m: Seq<bool>) -> nat
    decreases m.len(),
{
    if m.len() == 0 {
        0
    } else {
        count_unmarked(m.drop_last()) + if m.last() {
            0nat
        } else {
            1nat
        }
    }
}

proof fn lemma_count_unmarked_mark(m: Seq<bool>, i: int)
    requires
        0 <= i < m.len(),
        !m[i],
    ensures
        count_unmarked(m.update(i, true)) + 1 == count_unmarked(m),
    decreases m.len(),
{
    if i == m.len() - 1 {
        assert(m.update(i, true).drop_last() =~= m.drop_last());
    } else {
        lemma_count_unmarked_mark(m.drop_last(), i);
        assert(m.update(i, true).drop_last() =~= m.drop_last().update(i, true));
    }
}

proof fn lemma_push_contains(s: Seq<u64>, x: u64, r: u64)
    ensures
        s.push(x).contains(r) <==> (s.contains(r) || r == x),
{
    if s.contains(r) {
        let i = choose|i: int| 0 <= i < s.len() && s[i] == r;
        assert(s.push(x)[i] == r);
    }
    if r == x {
        assert(s.push(x)[s.len() as int] == x);
    }
    if s.push(x).contains(r) {
        let i = choose|i: int| 0 <= i < s.push(x).len() && s.push(x)[i] == r;
        if i < s.len() {
            assert(s[i] == r);
        }
    }
}

/// The object `r` is marked: marks are kept by position, `r - 1`.
spec fn marked_id(m: Seq<bool>, r: u64) -> bool {
    1 <= r <= m.len() && m[r - 1]
}

/// Every object on the heap that a child slot of `p` names is marked.
spec fn closed(h: Map<u64, ObjectView>, m: Seq<bool>, p: u64) -> bool {
    forall|i: int, c: u64| #[trigger] child_edge(h, p, i, c) ==> marked_id(m, c)
}

/// Only objects on the heap are reachable.
pub proof fn lemma_reachable_on_heap(h: Map<u64, ObjectView>, r: u64, k: nat)
    requires
        reachable_within(h, r, k),
    ensures
        h.contains_key(r),
    decreases k,
{
    if k > 0 && reachable_within(h, r, (k - 1) as nat) {
        lemma_reachable_on_heap(h, r, (k - 1) as nat);
    }
}

/// A marking that holds every root and is closed under child edges holds
/// every reachable object.
proof fn lemma_closed_marking_complete(h: Map<u64, ObjectView>, m: Seq<bool>, r: u64, k: nat)
    requires
        forall|x: u64| is_root(h, x) ==> marked_id(m, x),
        forall|x: u64| marked_id(m, x) ==> closed(h, m, x),
        reachable_within(h, r, k),
    ensures
        marked_id(m, r),
    decreases k,
{
    if k > 0 {
        if reachable_within(h, r, (k - 1) as nat) {
            lemma_closed_marking_complete(h, m, r, (k - 1) as nat);
        } else {
            let (p, i) = choose|p: u64, i: int|
                #![trigger child_edge(h, p, i, r)]
                reachable_within(h, p, (k - 1) as nat) && child_edge(h, p, i, r);
            lemma_closed_marking_complete(h, m, p, (k - 1) as nat);
            assert(closed(h, m, p));
        }
    }
}

/// What is reachable before a collection stays reachable, by as many edges,
/// in what the collection keeps.
proof fn lemma_reachable_kept(h: Map<u64, ObjectView>, r: u64, k: nat)
    requires
        reachable_within(h, r, k),
    ensures
        reachable_within(collected(h), r, k),
    decreases k,
{
    let c = collected(h);
    assert(reachable(h, r));
    lemma_reachable_on_heap(h, r, k);
    if k == 0 {
    } else if reachable_within(h, r, (k - 1) as nat) {
        lemma_reachable_kept(h, r, (k - 1) as nat);
    } else {
        let (p, i) = choose|p: u64, i: int|
            #![trigger child_edge(h, p, i, r)]
            reachable_within(h, p, (k - 1) as nat) && child_edge(h, p, i, r);
        lemma_reachable_kept(h, p, (k - 1) as nat);
        assert(reachable(h, p));
        assert(child_edge(c, p, i, r));
    }
}

/// After a collection every object left on the heap is reachable from a
/// root, and every object that was unreachable before is gone.
pub proof fn lemma_collected_reachable(h: Map<u64, ObjectView>)
    ensures
        forall|r: u64| #[trigger] collected(h).contains_key(r) ==> reachable(collected(h), r),
        forall|r: u64|
            h.contains_key(r) && !reachable(h, r) ==> !#[trigger] collected(h).contains_key(r),
{
    assert forall|r: u64| #[trigger] collected(h).contains_key(r) implies reachable(
        collected(h),
        r,
    ) by {
        let k = choose|k: nat| reachable_within(h, r, k);
        lemma_reachable_kept(h, r, k);
    }
}

impl Heap {
    /// Runs the collector: marks every object reachable from a root (an
    /// object with stack references) through child slots, then removes every
    /// object left unmarked. Cycles that no root reaches are removed too.
    pub fn collect_garbage(&mut self)
        requires
            old(self).wf(),
        ensures
            final(self).wf(),
            final(self).next_id() == old(self).next_id(),
            final(self)@ == collected(old(self)@),
            forall|r: u64| #[trigger]
                final(self)@.contains_key(r) ==> reachable(final(self)@, r),
            forall|r: u64|
                old(self)@.contains_key(r) && !reachable(old(self)@, r)
                    ==> !#[trigger] final(self)@.contains_key(r),
    {
        let ghost h = self@;
        let n = self.slots.len();
        let mut marked: Vec<bool> = Vec::new();
        let mut worklist: Vec<u64> = Vec::new();
        let mut j: usize = 0;
        while j < n
            invariant
                self.slots_wf(),
                self@ == h,
                n == self.slots@.len(),
                j <= n,
                marked@.len() == j,
                forall|r: u64| 1 <= r <= j ==> (marked_id(marked@, r) <==> is_root(h, r)),
                forall|r: u64| marked_id(marked@, r) ==> worklist@.contains(r),
                forall|k: int| 0 <= k < worklist@.len() ==> marked_id(marked@, #[trigger] worklist@[k]),
            decreases n - j,
        {
            let root = match &self.slots[j] {
                Some(o) => o.stack_references > 0,
                None => false,
            };
            let ghost id = (j + 1) as u64;
            let ghost m_prev = marked@;
            let ghost wl_prev = worklist@;
            assert(root <==> is_root(h, id));
            marked.push(root);
            if root {
                worklist.push((j + 1) as u64);
            }
            j = j + 1;
            assert forall|r: u64| marked_id(marked@, r) implies worklist@.contains(r) by {
                if root {
                    lemma_push_contains(wl_prev, id, r);
                }
                if r < id {
                    assert(marked_id(m_prev, r));
                }
            }
        }
        assert forall|r: u64| is_root(h, r) implies marked_id(marked@, r) by {
            assert(h.contains_key(r));
        }
        assert forall|r: u64| marked_id(marked@, r) implies reachable(h, r) by {
            assert(reachable_within(h, r, 0));
        }
        while worklist.len() > 0
            invariant
                self.slots_wf(),
                self@ == h,
                n == self.slots@.len(),
                marked@.len() == n,
                forall|r: u64| marked_id(marked@, r) ==> reachable(h, r),
                forall|r: u64| is_root(h, r) ==> marked_id(marked@, r),
                forall|k: int| 0 <= k < worklist@.len() ==> marked_id(marked@, #[trigger] worklist@[k]),
                forall|r: u64|
                    marked_id(marked@, r) && !worklist@.contains(r) ==> closed(h, marked@, r),
            decreases 2 * count_unmarked(marked@) + worklist@.len(),
        {
            let ghost measure = 2 * count_unmarked(marked@) + worklist@.len();
            let ghost wl0 = worklist@;
            let p = worklist.pop().unwrap();
            assert(marked_id(marked@, p)) by {
                assert(wl0[wl0.len() - 1] == p);
            }
            proof {
                assert(reachable(h, p));
                let k = choose|k: nat| reachable_within(h, p, k);
                lemma_reachable_on_heap(h, p, k);
                assert(wl0 =~= worklist@.push(p));
                assert forall|r: u64|
                    marked_id(marked@, r) && !worklist@.contains(r) && r != p implies closed(
                    h,
                    marked@,
                    r,
                ) by {
                    lemma_push_contains(worklist@, p, r);
                }
            }
            let pi = (p - 1) as usize;
            match &self.slots[pi] {
                Some(obj) => {
                    let len = obj.children.len();
                    let mut c: usize = 0;
                    while c < len
                        invariant
                            self.slots_wf(),
                            self@ == h,
                            n == self.slots@.len(),
                            marked@.len() == n,
                            h.contains_key(p),
                            pi == p - 1,
                            self.slots@[pi as int] == Some(*obj),
                            len == obj.children@.len(),
                            c <= len,
                            marked_id(marked@, p),
                            forall|r: u64| marked_id(marked@, r) ==> reachable(h, r),
                            forall|r: u64| is_root(h, r) ==> marked_id(marked@, r),
                            forall|k: int|
                                0 <= k < worklist@.len() ==> marked_id(
                                    marked@,
                                    #[trigger] worklist@[k],
                                ),
                            forall|r: u64|
                                marked_id(marked@, r) && !worklist@.contains(r) && r != p
                                    ==> closed(h, marked@, r),
                            forall|i: int, ch: u64|
                                0 <= i < c && #[trigger] child_edge(h, p, i, ch) ==> marked_id(
                                    marked@,
                                    ch,
                                ),
                            2 * count_unmarked(marked@) + worklist@.len() < measure,
                        decreases len - c,
                    {
                        assert(h[p].children[c as int] == ref_id(obj.children@[c as int]));
                        match obj.children[c] {
                            Some(child) => {
                                let id = child.get();
                                if id < self.counter {
                                    let ci = (id - 1) as usize;
                                    if self.slots[ci].is_some() && !marked[ci] {
                                        let ghost m0 = marked@;
                                        let ghost wl_prev = worklist@;
                                        proof {
                                            assert(h.contains_key(id));
                                            assert(child_edge(h, p, c as int, id));
                                            lemma_count_unmarked_mark(m0, ci as int);
                                            assert(reachable(h, p));
                                            let k = choose|k: nat| reachable_within(h, p, k);
                                            assert(reachable_within(h, id, (k + 1) as nat));
                                        }
                                        marked[ci] = true;
                                        worklist.push(id);
                                        assert forall|r: u64|
                                            marked_id(marked@, r) && !worklist@.contains(r) && r
                                                != p implies closed(h, marked@, r) by {
                                            lemma_push_contains(wl_prev, id, r);
                                            assert(marked_id(m0, r));
                                            assert(closed(h, m0, r));
                                        }
                                    }
                                }
                            },
                            None => {},
                        }
                        c = c + 1;
                    }
                },
                None => {},
            }
        }
        let ghost m = marked@;
        assert forall|r: u64| reachable(h, r) implies marked_id(m, r) by {
            let k = choose|k: nat| reachable_within(h, r, k);
            lemma_closed_marking_complete(h, m, r, k);
        }
        let ghost old_slots = self.slots@;
        let mut j: usize = 0;
        while j < n
            invariant
                self.counter == old(self).counter,
                self.slots@.len() == n,
                n == old_slots.len(),
                marked@ == m,
                m.len() == n,
                j <= n,
                forall|q: int|
                    0 <= q < j ==> self.slots@[q] == if m[q] {
                        old_slots[q]
                    } else {
                        None
                    },
                forall|q: int| j <= q < n ==> self.slots@[q] == old_slots[q],
            decreases n - j,
        {
            if !marked[j] {
                self.slots[j] = None;
            }
            j = j + 1;
        }
        assert(self@ =~= collected(h)) by {
            assert forall|r: u64| #[trigger] self@.contains_key(r) <==> collected(h).contains_key(r) by {
                if 1 <= r < self.counter {
                    assert(marked_id(m, r) <==> reachable(h, r));
                }
            }
        }
        proof {
            lemma_collected_reachable(h);
        }
    }
}

} // verus!
