//! The type registry: a bijective mapping between type names and numeric
//! type ids, with the wire framing for polymorphic payloads.
//!
//! Ids 0 through 127 are reserved for well-known shapes; registration
//! without an explicit id assigns ids from 128 upward.  The registry's
//! invariant is a bijection: every registered id belongs to exactly one
//! name and every name to exactly one id.  Registering a name or id again
//! replaces what held it, so the bijection survives every sequence of
//! registrations.
//!
//! A polymorphic payload travels as a field of wire type `Bytes` holding
//! `[type id: varint][payload length: varint][payload bytes]`, so a reader
//! that knows nothing of the type can still skip the whole field.

use vstd::prelude::*;

use crate::error::Error;
use crate::reader::Reader;
use crate::types::{tag_bytes, TypeId, WireType};
use crate::varint::{group_value, scan32, varint_bytes, VarintScan};
use crate::writer::Writer;
use vstd::string::StringExecFns;

verus! {

/// One registration: a numeric id bound to a name.
#[derive(Clone)]
struct TypeRegistration {
    type_id: TypeId,
    name: String,
}

/// The registry of type names and ids.
///
/// Its view is the sequence of registered `(id, name)` pairs, in
/// registration order; the bijection makes the order invisible to every
/// lookup.
pub struct Registry {
    regs: Vec<TypeRegistration>,
    next_type_id: TypeId,
}

/// No id and no name occurs twice among the pairs.
pub open spec fn pairs_distinct(s: Seq<(u32, Seq<char>)>) -> bool {
    forall|k: int, l: int|
        0 <= k < l < s.len() ==> (#[trigger] s[k]).0 != (#[trigger] s[l]).0 && s[k].1 != s[l].1
}

/// The framed bytes of one polymorphic payload: the type id as a varint,
/// then the payload with a varint length prefix.
pub open spec fn poly_block(id: u32, p: Seq<u8>) -> Seq<u8> {
    varint_bytes(id as nat) + varint_bytes(p.len()) + p
}

impl View for Registry {
    type V = Seq<(u32, Seq<char>)>;

    closed spec fn view(&self) -> Seq<(u32, Seq<char>)> {
        self.regs@.map_values(|t: TypeRegistration| (t.type_id, t.name@))
    }
}

impl Registry {
    /// The id the next automatic registration would take.
    pub closed spec fn next_id(&self) -> u32 {
        self.next_type_id
    }

    /// The registry's invariant: automatic ids start at 128, every
    /// registered id lies below the next automatic id, and the pairs form
    /// a bijection.
    pub open spec fn wf(&self) -> bool {
        &&& self.next_id() >= 128
        &&& forall|i: int| 0 <= i < self@.len() ==> (#[trigger] self@[i]).0 < self.next_id()
        &&& pairs_distinct(self@)
    }

    /// Whether some registration holds this id.
    pub open spec fn contains_id(&self, id: u32) -> bool {
        exists|i: int| 0 <= i < self@.len() && (#[trigger] self@[i]).0 == id
    }

    /// Whether some registration holds this name.
    pub open spec fn contains_name(&self, name: Seq<char>) -> bool {
        exists|i: int| 0 <= i < self@.len() && (#[trigger] self@[i]).1 == name
    }

    /// The id registered under a name.
    pub open spec fn id_of(&self, name: Seq<char>) -> u32 {
        let i = choose|i: int| 0 <= i < self@.len() && (#[trigger] self@[i]).1 == name;
        self@[i].0
    }

    /// The name registered under an id.
    pub open spec fn name_of(&self, id: u32) -> Seq<char> {
        let i = choose|i: int| 0 <= i < self@.len() && (#[trigger] self@[i]).0 == id;
        self@[i].1
    }

    /// Creates an empty registry whose automatic ids start at 128.
    pub fn new() -> (r: Self)
        ensures
            r.wf(),
            r@ == Seq::<(u32, Seq<char>)>::empty(),
            r.next_id() == 128,
    {
        let r = Registry { regs: Vec::new(), next_type_id: 128 };
        proof {
            assert(r@ =~= Seq::<(u32, Seq<char>)>::empty());
        }
        r
    }

    /// The index of the registration holding `name`, if any.
    fn find_name_index(&self, name: &String) -> (r: Option<usize>)
        ensures
            (r matches Some(i) ==> i < self@.len() && self@[i as int].1 == name@),
            r is None ==> !self.contains_name(name@),
    {
        let mut i: usize = 0;
        while i < self.regs.len()
            invariant
                i <= self.regs@.len(),
                self@.len() == self.regs@.len(),
                forall|k: int| 0 <= k < self@.len() ==> #[trigger] self@[k] == (
                    self.regs@[k].type_id,
                    self.regs@[k].name@,
                ),
                forall|k: int| 0 <= k < i ==> (#[trigger] self@[k]).1 != name@,
            decreases self.regs@.len() - i,
        {
            if self.regs[i].name == *name {
                return Some(i);
            }
            i = i + 1;
        }
        None
    }

    /// The index of the registration holding `type_id`, if any.
    fn find_id_index(&self, type_id: TypeId) -> (r: Option<usize>)
        ensures
            (r matches Some(i) ==> i < self@.len() && self@[i as int].0 == type_id),
            r is None ==> !self.contains_id(type_id),
    {
        let mut i: usize = 0;
        while i < self.regs.len()
            invariant
                i <= self.regs@.len(),
                self@.len() == self.regs@.len(),
                forall|k: int| 0 <= k < self@.len() ==> #[trigger] self@[k] == (
                    self.regs@[k].type_id,
                    self.regs@[k].name@,
                ),
                forall|k: int| 0 <= k < i ==> (#[trigger] self@[k]).0 != type_id,
            decreases self.regs@.len() - i,
        {
            if self.regs[i].type_id == type_id {
                return Some(i);
            }
            i = i + 1;
        }
        None
    }

    /// Registers `name` under `type_id`, replacing whatever held either,
    /// and advances the automatic counter past the id when needed.
    fn register_with_id_inner(&mut self, name: String, type_id: TypeId) -> (r: TypeId)
        requires
            old(self).wf(),
            type_id < u32::MAX,
        ensures
            final(self).wf(),
            r == type_id,
            forall|e: (u32, Seq<char>)| #[trigger] final(self)@.contains(e) <==> ((old(self)@.contains(e) && e.0 != type_id && e.1 != name@) || e == (type_id, name@)),
            final(self).next_id() == if type_id >= old(self).next_id() {
                type_id + 1
            } else {
                old(self).next_id() as int
            },
            final(self).contains_name(name@),
            final(self).id_of(name@) == type_id,
            final(self).contains_id(type_id),
            final(self).name_of(type_id) == name@,
    {
        let ghost v0 = self@;
        proof {
            lemma_distinct_components(v0);
        }
        if let Some(i) = self.find_name_index(&name) {
            proof {
                lemma_distinct_remove(v0, i as int);
            }
            self.regs.remove(i);
            proof {
                assert(self@ =~= v0.remove(i as int));
            }
        }
        let ghost v1 = self@;
        proof {
            lemma_distinct_components(v1);
        }
        if let Some(j) = self.find_id_index(type_id) {
            proof {
                lemma_distinct_remove(v1, j as int);
            }
            self.regs.remove(j);
            proof {
                assert(self@ =~= v1.remove(j as int));
            }
        }
        let ghost v2 = self@;
        self.regs.push(TypeRegistration { type_id, name });
        if type_id >= self.next_type_id {
            self.next_type_id = type_id + 1;
        }
        proof {
            let e_new = (type_id, self@[self@.len() - 1].1);
            assert(self@ =~= v2.push(e_new));
            assert(forall|e: (u32, Seq<char>)| #[trigger] self@.contains(e) <==> (v2.contains(e)
                || e == e_new)) by {
                vstd::seq_lib::lemma_seq_contains_after_push(v2, e_new, e_new);
                assert forall|e: (u32, Seq<char>)| true implies (#[trigger] self@.contains(e)
                    <==> (v2.contains(e) || e == e_new)) by {
                    vstd::seq_lib::lemma_seq_contains_after_push(v2, e_new, e);
                }
            }
            assert(forall|k: int| 0 <= k < v2.len() ==> (#[trigger] v2[k]).1 != e_new.1);
            assert(forall|k: int| 0 <= k < v2.len() ==> (#[trigger] v2[k]).0 != e_new.0);
            assert(self.contains_name(e_new.1)) by {
                assert(self@[self@.len() - 1].1 == e_new.1);
            }
            let i0 = choose|i: int| 0 <= i < self@.len() && (#[trigger] self@[i]).1 == e_new.1;
            assert(self@[i0] == e_new) by {
                if i0 < self@.len() - 1 {
                    assert(v2[i0].1 != e_new.1);
                }
            }
            let i1 = choose|i: int| 0 <= i < self@.len() && (#[trigger] self@[i]).0 == e_new.0;
            assert(self@[i1] == e_new) by {
                if i1 < self@.len() - 1 {
                    assert(v2[i1].0 != e_new.0);
                }
            }
        }
        type_id
    }

    /// Registers a name with the next automatic id and returns that id.
    /// A name registered before moves to the new id, keeping the bijection.
    pub fn register(&mut self, name: &str) -> (r: TypeId)
        requires
            old(self).wf(),
            old(self).next_id() < u32::MAX,
        ensures
            final(self).wf(),
            r == old(self).next_id(),
            final(self).next_id() == r + 1,
            forall|e: (u32, Seq<char>)| #[trigger] final(self)@.contains(e) <==> ((old(self)@.contains(e) && e.0 != r && e.1 != name@) || e == (r, name@)),
            final(self).contains_name(name@),
            final(self).id_of(name@) == r,
            final(self).name_of(r) == name@,
    {
        let type_id = self.next_type_id;
        self.register_with_id_inner(name.to_owned(), type_id)
    }

    /// Registers a name under a caller-chosen id, replacing whatever held
    /// the name or the id, and advances the automatic counter past it.
    pub fn register_with_id(&mut self, name: &str, type_id: TypeId) -> (r: TypeId)
        requires
            old(self).wf(),
            type_id < u32::MAX,
        ensures
            final(self).wf(),
            r == type_id,
            forall|e: (u32, Seq<char>)| #[trigger] final(self)@.contains(e) <==> ((old(self)@.contains(e) && e.0 != type_id && e.1 != name@) || e == (type_id, name@)),
            final(self).next_id() == if type_id >= old(self).next_id() {
                type_id + 1
            } else {
                old(self).next_id() as int
            },
            final(self).contains_name(name@),
            final(self).id_of(name@) == type_id,
            final(self).name_of(type_id) == name@,
    {
        self.register_with_id_inner(name.to_owned(), type_id)
    }

    /// Returns the id already registered under `name`, or registers the
    /// name with the next automatic id.  Registering the same name twice
    /// returns the same id both times and adds no second entry.
    pub fn register_or_get(&mut self, name: &str) -> (r: TypeId)
        requires
            old(self).wf(),
            old(self).next_id() < u32::MAX,
        ensures
            final(self).wf(),
            old(self).contains_name(name@) ==> r == old(self).id_of(name@) && final(self)@ == old(self)@
                && final(self).next_id() == old(self).next_id(),
            !old(self).contains_name(name@) ==> r == old(self).next_id() && final(self).next_id() == r + 1
                && (forall|e: (u32, Seq<char>)| #[trigger] final(self)@.contains(e) <==> (old(self)@.contains(e) || e == (r, name@))),
            final(self).contains_name(name@),
            final(self).id_of(name@) == r,
    {
        let owned = name.to_owned();
        if let Some(i) = self.find_name_index(&owned) {
            proof {
                let i0 = choose|k: int| 0 <= k < self@.len() && (#[trigger] self@[k]).1 == name@;
                lemma_registry_bijection(self, i0, i as int);
            }
            return self.regs[i].type_id;
        }
        proof {
            assert(forall|e: (u32, Seq<char>)| old(self)@.contains(e) ==> e.1 != name@) by {
                assert forall|e: (u32, Seq<char>)| old(self)@.contains(e) implies e.1 != name@ by {
                    if e.1 == name@ {
                        let k = choose|k: int|
                            0 <= k < old(self)@.len() && old(self)@[k] == e;
                        assert((old(self)@[k]).1 == name@);
                    }
                }
            }
        }
        let type_id = self.next_type_id;
        self.register_with_id_inner(owned, type_id)
    }

    /// Looks up the id registered under a name; fails with a
    /// type-not-registered condition carrying the name when absent.
    pub fn get_type_id(&self, name: &str) -> (r: Result<TypeId, Error>)
        requires
            self.wf(),
        ensures
            self.contains_name(name@) ==> r == Ok::<TypeId, Error>(self.id_of(name@)),
            !self.contains_name(name@) ==> (r matches Err(e) && e matches
                Error::TypeNotRegistered(n) && n@ == name@),
    {
        let owned = name.to_owned();
        match self.find_name_index(&owned) {
            Some(i) => {
                proof {
                    let i0 = choose|k: int|
                        0 <= k < self@.len() && (#[trigger] self@[k]).1 == name@;
                    lemma_registry_bijection(self, i0, i as int);
                }
                Ok(self.regs[i].type_id)
            },
            None => Err(Error::TypeNotRegistered(owned)),
        }
    }

    /// Looks up the name registered under an id; fails with an
    /// unknown-type-id condition carrying the id when absent.
    pub fn get_type_name(&self, type_id: TypeId) -> (r: Result<String, Error>)
        requires
            self.wf(),
        ensures
            self.contains_id(type_id) ==> (r matches Ok(n) && n@ == self.name_of(type_id)),
            !self.contains_id(type_id) ==> r == Err::<String, Error>(Error::UnknownTypeId(type_id)),
    {
        match self.find_id_index(type_id) {
            Some(i) => {
                proof {
                    let i0 = choose|k: int|
                        0 <= k < self@.len() && (#[trigger] self@[k]).0 == type_id;
                    lemma_registry_bijection(self, i0, i as int);
                }
                Ok(self.regs[i].name.clone())
            },
            None => Err(Error::UnknownTypeId(type_id)),
        }
    }

    /// Whether a name is registered.
    pub fn is_registered(&self, name: &str) -> (r: bool)
        ensures
            r == self.contains_name(name@),
    {
        let owned = name.to_owned();
        match self.find_name_index(&owned) {
            Some(i) => true,
            None => false,
        }
    }

    /// Whether an id is registered.
    pub fn is_registered_id(&self, type_id: TypeId) -> (r: bool)
        ensures
            r == self.contains_id(type_id),
    {
        match self.find_id_index(type_id) {
            Some(i) => true,
            None => false,
        }
    }

    /// Encodes a polymorphic value: a field tag of wire type `Bytes`, then
    /// a length-prefixed block holding the type id as a varint and the
    /// length-prefixed payload.  Fails, writing nothing, when the name is
    /// not registered.
    pub fn encode_polymorphic(
        &self,
        writer: &mut Writer,
        field_number: u32,
        name: &str,
        payload: &[u8],
    ) -> (r: Result<(), Error>)
        requires
            self.wf(),
            payload@.len() <= u32::MAX - 10,
        ensures
            !self.contains_name(name@) ==> (r matches Err(e) && e matches
                Error::TypeNotRegistered(n) && n@ == name@) && final(writer)@ == old(writer)@,
            self.contains_name(name@) ==> ({
                let block = poly_block(self.id_of(name@), payload@);
                r is Ok && final(writer)@ == old(writer)@ + tag_bytes(
                    field_number,
                    WireType::Bytes,
                ) + varint_bytes(block.len()) + block
            }),
    {
        let type_id = match self.get_type_id(name) {
            Ok(id) => id,
            Err(e) => {
                return Err(e);
            },
        };
        proof {
            lemma_varint_len_32(type_id as nat);
            lemma_varint_len_32(payload@.len());
        }
        let mut block = Writer::new();
        let id_written = block.write_varint(type_id);
        let payload_written = block.write_length_prefixed_bytes(payload);
        proof {
            assert(block@ =~= poly_block(type_id, payload@));
        }
        let tag_written = writer.write_tag(field_number, WireType::Bytes);
        let block_written = writer.write_length_prefixed_bytes(block.as_bytes());
        proof {
            assert(final(writer)@ =~= old(writer)@ + tag_bytes(field_number, WireType::Bytes)
                + varint_bytes(poly_block(type_id, payload@).len()) + poly_block(
                type_id,
                payload@,
            ));
        }
        Ok(())
    }

    /// Decodes a polymorphic block: reads the type id as a varint, resolves
    /// it to its registered name, then reads the length-prefixed payload,
    /// handing back the name and the payload bytes.  Fails with an
    /// unknown-type-id condition when the id is not registered.
    pub fn decode_polymorphic<'a>(&self, reader: &mut Reader<'a>) -> (r: Result<
        (String, &'a [u8]),
        Error,
    >)
        requires
            self.wf(),
            old(reader).wf(),
        ensures
            final(reader).wf(),
            final(reader).bytes() == old(reader).bytes(),
            (match scan32(old(reader).rest()) {
                VarintScan::Found(n) => ({
                    let id = group_value(old(reader).rest(), n as int) as u32;
                    &&& !self.contains_id(id) ==> r == Err::<(String, &'a [u8]), Error>(
                        Error::UnknownTypeId(id),
                    ) && final(reader).cursor() == old(reader).cursor() + n
                    &&& self.contains_id(id) ==> (match scan32(old(reader).rest().skip(n as int)) {
                        VarintScan::Found(m) => ({
                            let len = group_value(
                                old(reader).rest().skip(n as int),
                                m as int,
                            ) as int;
                            &&& old(reader).rest().len() - n - m >= len ==> (r matches Ok(p)
                                && p.0@ == self.name_of(id) && p.1@ == old(reader).rest().skip(
                                n as int,
                            ).skip(m as int).take(len) && final(reader).cursor() == old(reader).cursor() + n + m + len)
                            &&& old(reader).rest().len() - n - m < len ==> (r matches Err(e) && e
                                matches Error::BufferUnderflow { needed, available } && needed
                                == len && available == old(reader).rest().len() - n - m && final(reader).cursor() == old(reader).cursor() + n + m)
                        }),
                        VarintScan::Short => (r matches Err(e) && e matches
                            Error::BufferUnderflow { needed, available } && needed == 1
                            && available == 0) && final(reader).cursor() == old(reader).cursor()
                            + n,
                        VarintScan::TooBig => r == Err::<(String, &'a [u8]), Error>(
                            Error::VarintOverflow,
                        ) && final(reader).cursor() == old(reader).cursor() + n,
                    })
                }),
                VarintScan::Short => r == Err::<(String, &'a [u8]), Error>(
                    Error::BufferUnderflow { needed: 1, available: 0 },
                ) && final(reader).cursor() == old(reader).cursor(),
                VarintScan::TooBig => r == Err::<(String, &'a [u8]), Error>(Error::VarintOverflow)
                    && final(reader).cursor() == old(reader).cursor(),
            }),
    {
        let ghost s0 = old(reader).rest();
        let type_id = reader.read_varint()?;
        proof {
            if let VarintScan::Found(n) = scan32(s0) {
                assert(reader.rest() =~= s0.skip(n as int));
            }
        }
        let name = self.get_type_name(type_id)?;
        proof {
            if let VarintScan::Found(m) = scan32(reader.rest()) {
                crate::varint::lemma_scan32_value(reader.rest(), m);
            }
        }
        let payload = reader.read_length_prefixed_bytes()?;
        Ok((name, payload))
    }

    /// Removes every registration and resets the automatic counter to 128.
    pub fn clear(&mut self)
        ensures
            final(self).wf(),
            final(self)@ == Seq::<(u32, Seq<char>)>::empty(),
            final(self).next_id() == 128,
    {
        self.regs.clear();
        self.next_type_id = 128;
        proof {
            assert(self@ =~= Seq::<(u32, Seq<char>)>::empty());
        }
    }
}

/// Pairwise-distinct components make the pairs themselves distinct.
proof fn lemma_distinct_components(s: Seq<(u32, Seq<char>)>)
    requires
        pairs_distinct(s),
    ensures
        forall|k: int, l: int| 0 <= k < l < s.len() ==> s[k] != s[l],
{
}

/// Removing one pair from a distinct sequence removes exactly that pair
/// from the members, and keeps the rest distinct.
proof fn lemma_distinct_remove(s: Seq<(u32, Seq<char>)>, i: int)
    requires
        0 <= i < s.len(),
        pairs_distinct(s),
    ensures
        pairs_distinct(s.remove(i)),
        forall|e: (u32, Seq<char>)| #[trigger] s.remove(i).contains(e) <==> (s.contains(e) && e
            != s[i]),
{
    s.remove_ensures(i);
    let t = s.remove(i);
    assert forall|k: int, l: int| 0 <= k < l < t.len() implies (#[trigger] t[k]).0 != (
    #[trigger] t[l]).0 && t[k].1 != t[l].1 by {
        let k2: int = if k < i { k } else { k + 1 };
        let l2: int = if l < i { l } else { l + 1 };
        assert(t[k] == s[k2]);
        assert(t[l] == s[l2]);
    }
    assert forall|e: (u32, Seq<char>)| #[trigger] t.contains(e) implies (s.contains(e) && e
        != s[i]) by {
        let k = choose|k: int| 0 <= k < t.len() && t[k] == e;
        let k2: int = if k < i { k } else { k + 1 };
        assert(s[k2] == e);
        assert(k2 != i);
        if k2 < i {
            assert(s[k2] != s[i]);
        } else {
            assert(s[i] != s[k2]);
        }
    }
    assert forall|e: (u32, Seq<char>)| (s.contains(e) && e != s[i]) implies #[trigger] t.contains(
        e,
    ) by {
        let k = choose|k: int| 0 <= k < s.len() && s[k] == e;
        if k < i {
            assert(t[k] == e);
        } else {
            assert(k > i);
            assert(t[k - 1] == e);
        }
    }
}

/// Every value a 32-bit varint can carry fits five bytes.
proof fn lemma_varint_len_32(v: nat)
    requires
        v <= u32::MAX,
    ensures
        1 <= varint_bytes(v).len() <= 5,
{
    crate::varint::lemma_varint_bytes_shape(v);
    assert(crate::varint::pow128(5) == 0x800000000) by {
        reveal_with_fuel(crate::varint::pow128, 6);
    }
    crate::varint::lemma_varint_bytes_len(v, 5);
}

/// The registry bijection: among the registered pairs, equal ids or equal
/// names occur only at equal positions, so every id maps to exactly one
/// name and every name to exactly one id.
pub proof fn lemma_registry_bijection(r: &Registry, i: int, j: int)
    requires
        r.wf(),
        0 <= i < r@.len(),
        0 <= j < r@.len(),
    ensures
        r@[i].0 == r@[j].0 ==> i == j,
        r@[i].1 == r@[j].1 ==> i == j,
        r.contains_id(r@[i].0),
        r.contains_name(r@[i].1),
        r.name_of(r@[i].0) == r@[i].1,
        r.id_of(r@[i].1) == r@[i].0,
{
    if i != j {
        if i < j {
            assert((r@[i]).0 != (r@[j]).0 && (r@[i]).1 != (r@[j]).1);
        } else {
            assert((r@[j]).0 != (r@[i]).0 && (r@[j]).1 != (r@[i]).1);
        }
    }
    assert(r.contains_id(r@[i].0)) by {
        assert((r@[i]).0 == r@[i].0);
    }
    assert(r.contains_name(r@[i].1)) by {
        assert((r@[i]).1 == r@[i].1);
    }
    let k0 = choose|k: int| 0 <= k < r@.len() && (#[trigger] r@[k]).0 == r@[i].0;
    if k0 != i {
        if k0 < i {
            assert((r@[k0]).0 != (r@[i]).0);
        } else {
            assert((r@[i]).0 != (r@[k0]).0);
        }
    }
    let k1 = choose|k: int| 0 <= k < r@.len() && (#[trigger] r@[k]).1 == r@[i].1;
    if k1 != i {
        if k1 < i {
            assert((r@[k1]).1 != (r@[i]).1);
        } else {
            assert((r@[i]).1 != (r@[k1]).1);
        }
    }
}

/// A registered name resolves to an id that resolves back to the name.
pub proof fn lemma_lookup_inverse(r: &Registry, name: Seq<char>)
    requires
        r.wf(),
        r.contains_name(name),
    ensures
        r.contains_id(r.id_of(name)),
        r.name_of(r.id_of(name)) == name,
{
    let i = choose|i: int| 0 <= i < r@.len() && (#[trigger] r@[i]).1 == name;
    lemma_registry_bijection(r, i, i);
}

/// Round trip of a polymorphic payload through the registry's wire
/// framing: encoding a payload under a registered name yields bytes whose
/// field tag scans back as a `Bytes` field, whose outer length prefix
/// carves out exactly the block, and whose block holds the registered id
/// and the payload; the id resolves back to the same name.
#[verifier::rlimit(80)]
pub proof fn lemma_polymorphic_roundtrip(
    r: &Registry,
    field_number: u32,
    name: Seq<char>,
    payload: Seq<u8>,
    rest: Seq<u8>,
)
    requires
        r.wf(),
        r.contains_name(name),
        1 <= field_number,
        payload.len() <= u32::MAX - 10,
    ensures
        ({
            let id = r.id_of(name);
            let block = poly_block(id, payload);
            let framed = varint_bytes(block.len()) + block + rest;
            let encoded = tag_bytes(field_number, WireType::Bytes) + framed;
            &&& r.contains_id(id) && r.name_of(id) == name
            &&& crate::types::scan_tag(encoded) == crate::types::TagScan::Found(
                field_number,
                WireType::Bytes,
                tag_bytes(field_number, WireType::Bytes).len() as nat,
            )
            &&& encoded.skip(tag_bytes(field_number, WireType::Bytes).len() as int) =~= framed
            &&& scan32(framed) == VarintScan::Found(varint_bytes(block.len()).len() as nat)
            &&& group_value(framed, varint_bytes(block.len()).len() as int) == block.len()
            &&& framed.skip(varint_bytes(block.len()).len() as int).take(block.len() as int)
                =~= block
            &&& scan32(block) == VarintScan::Found(varint_bytes(id as nat).len() as nat)
            &&& group_value(block, varint_bytes(id as nat).len() as int) == id as nat
            &&& ({
                let n1 = varint_bytes(id as nat).len() as int;
                let n2 = varint_bytes(payload.len()).len() as int;
                &&& scan32(block.skip(n1)) == VarintScan::Found(n2 as nat)
                &&& group_value(block.skip(n1), n2) == payload.len()
                &&& block.skip(n1).skip(n2).take(payload.len() as int) =~= payload
                &&& block.len() == n1 + n2 + payload.len()
            })
        }),
{
    let id = r.id_of(name);
    let block = poly_block(id, payload);
    let framed = varint_bytes(block.len()) + block + rest;
    lemma_lookup_inverse(r, name);
    lemma_varint_len_32(id as nat);
    lemma_varint_len_32(payload.len());
    assert(block.len() <= u32::MAX);
    crate::types::lemma_tag_roundtrip(field_number, WireType::Bytes, framed);
    assert((tag_bytes(field_number, WireType::Bytes) + framed).skip(
        tag_bytes(field_number, WireType::Bytes).len() as int,
    ) =~= framed);
    let len_u32 = block.len() as u32;
    crate::varint::lemma_varint32_roundtrip(len_u32, block + rest);
    assert(framed =~= varint_bytes(len_u32 as nat) + (block + rest));
    assert(framed.skip(varint_bytes(block.len()).len() as int).take(block.len() as int)
        =~= block);
    crate::varint::lemma_varint32_roundtrip(id, varint_bytes(payload.len()) + payload);
    assert(block =~= varint_bytes(id as nat) + (varint_bytes(payload.len()) + payload));
    let n1 = varint_bytes(id as nat).len() as int;
    let n2 = varint_bytes(payload.len()).len() as int;
    let plen_u32 = payload.len() as u32;
    crate::varint::lemma_varint32_roundtrip(plen_u32, payload);
    assert(block.skip(n1) =~= varint_bytes(plen_u32 as nat) + payload);
    assert(block.skip(n1).skip(n2).take(payload.len() as int) =~= payload);
}

impl Default for Registry {
    /// An empty registry whose automatic ids start at 128.
    fn default() -> (r: Self)
        ensures
            r.wf(),
            r@ == Seq::<(u32, Seq<char>)>::empty(),
            r.next_id() == 128,
    {
        Self::new()
    }
}

} // verus!
