//! Relocation engine (dynamic assembler): owns the output byte buffer and a
//! symbol table, lets code reference addresses not yet known, and patches the
//! emitted bytes in place once those addresses become known.

use vstd::prelude::*;

use crate::ais::{
    spec_decode_instr, spec_encodable, spec_encode_err, spec_encoding, spec_i_type, spec_reg_bits,
    spec_reg_err, spec_reg_valid, spec_set_imm, spec_unit_is_itype, spec_word, spec_xj, AisError,
    Instruction, Opcode, Register,
};

verus! {

/// Errors reported by the relocation engine: a codec error passed through, a
/// foreign or out-of-range symbol handle, a second resolution of the same
/// symbol, or a patch whose re-encoding would change the unit's length.
#[derive(Debug)]
pub enum DynAsmError {
    AisError(AisError),
    InvalidSym,
    SymbolRedefined,
    ResolveUnstable,
}

/// An opaque symbol handle, issued in creation order.
#[derive(Debug, Copy, Clone)]
pub struct Sym(usize);

impl Sym {
    /// The handle's position in the symbol table that issued it.
    pub closed spec fn spec_id(&self) -> int {
        self.0 as int
    }
}

/// A symbol handle's id is a position in the table that issued it, so it is
/// never negative.
pub proof fn lemma_sym_id_nonneg(s: Sym)
    ensures
        s.spec_id() >= 0,
{
}

/// Which half of a future 32-bit absolute address a pending reference stands
/// for.
#[derive(Debug, Copy, Clone, PartialEq, Eq, Structural)]
pub enum SymRefKind {
    HighImm,
    LowImm,
}

/// A pending reference: a byte offset into the output buffer at which a
/// 6-byte instruction unit awaits one half of a resolved address.
#[derive(Debug, Copy, Clone, PartialEq, Eq, Structural)]
pub struct SymRef {
    pub kind: SymRefKind,
    pub offset: u32,
}

/// A symbol's resolution state: unresolved with its pending references, or
/// resolved to an absolute address. The state transitions exactly once.
enum Symbol {
    Unresolved(Vec<SymRef>),
    Resolved(u32),
}

/// The relocation engine's state: the output buffer, the load base address,
/// and the symbol table.
pub struct DynAsm {
    base: u32,
    memory: Vec<u8>,
    symbols: Vec<Symbol>,
}

/// The 16-bit immediate that a reference of the given kind takes from a
/// resolved address: its low or high half.
pub open spec fn spec_half(kind: SymRefKind, addr: u32) -> u16 {
    match kind {
        SymRefKind::LowImm => (addr & 0xFFFF) as u16,
        SymRefKind::HighImm => ((addr >> 16) & 0xFFFF) as u16,
    }
}

/// The 6-byte unit of the buffer starting at offset `o`.
pub open spec fn spec_unit_at(mem: Seq<u8>, o: int) -> Seq<u8> {
    mem.subrange(o, o + 6)
}

/// What patching a unit produces: the unit is decoded, its immediate is
/// overwritten with the address half the reference kind selects, and the
/// instruction is re-encoded.
pub open spec fn spec_patched_unit(unit: Seq<u8>, kind: SymRefKind, addr: u32) -> Seq<u8> {
    spec_encoding(spec_set_imm(spec_decode_instr(unit).unwrap(), spec_half(kind, addr)))
}

/// A pending reference is usable: its unit lies within the buffer and decodes
/// to an I-type instruction, so a patch re-encodes to exactly 6 bytes.
pub open spec fn spec_ref_ok(mem: Seq<u8>, r: SymRef) -> bool {
    &&& r.offset + 6 <= mem.len()
    &&& spec_unit_is_itype(spec_unit_at(mem, r.offset as int))
}

/// Two pending references touch disjoint byte ranges.
pub open spec fn spec_refs_disjoint(a: SymRef, b: SymRef) -> bool {
    a.offset + 6 <= b.offset || b.offset + 6 <= a.offset
}

/// Whether position `p` lies in the byte range of some reference in `refs`.
pub open spec fn spec_in_ref_ranges(refs: Seq<SymRef>, p: int) -> bool {
    exists|j: int| 0 <= j < refs.len() && (#[trigger] refs[j]).offset <= p < refs[j].offset + 6
}

impl DynAsm {
    /// The load base address the engine was created with.
    pub closed spec fn spec_base(&self) -> u32 {
        self.base
    }

    /// The output buffer's contents.
    pub closed spec fn spec_mem(&self) -> Seq<u8> {
        self.memory@
    }

    /// How many symbols have been issued.
    pub closed spec fn spec_sym_count(&self) -> int {
        self.symbols@.len() as int
    }

    /// Whether symbol `i` has been resolved.
    pub closed spec fn spec_sym_resolved(&self, i: int) -> bool {
        self.symbols@[i] is Resolved
    }

    /// The address symbol `i` resolved to (meaningful when resolved).
    pub closed spec fn spec_sym_value(&self, i: int) -> u32 {
        self.symbols@[i]->Resolved_0
    }

    /// The pending references recorded against symbol `i`; a resolved symbol
    /// has none.
    pub closed spec fn spec_sym_refs(&self, i: int) -> Seq<SymRef> {
        match self.symbols@[i] {
            Symbol::Unresolved(refs) => refs@,
            Symbol::Resolved(_) => Seq::empty(),
        }
    }

    /// The symbol count is a table length, so it is never negative.
    pub proof fn lemma_sym_count_nonneg(&self)
        ensures
            self.spec_sym_count() >= 0,
    {
    }

    /// A resolved symbol keeps no pending references: resolution consumes
    /// them, and none can be recorded against the symbol afterwards.
    pub proof fn lemma_resolved_sym_has_no_refs(&self, i: int)
        requires
            self.spec_sym_resolved(i),
        ensures
            self.spec_sym_refs(i) == Seq::<SymRef>::empty(),
    {
    }

    /// Every pending reference of every symbol points at a whole, I-type
    /// instruction unit of the buffer.
    pub open spec fn spec_refs_wf(&self) -> bool {
        forall|i: int, j: int|
            0 <= i < self.spec_sym_count() && 0 <= j < self.spec_sym_refs(i).len()
                ==> spec_ref_ok(self.spec_mem(), #[trigger] self.spec_sym_refs(i)[j])
    }

    /// Pending references touch pairwise disjoint byte ranges, across all
    /// symbols.
    pub open spec fn spec_refs_pairwise_disjoint(&self) -> bool {
        forall|i1: int, j1: int, i2: int, j2: int|
            #![trigger self.spec_sym_refs(i1)[j1], self.spec_sym_refs(i2)[j2]]
            0 <= i1 < self.spec_sym_count() && 0 <= j1 < self.spec_sym_refs(i1).len() && 0 <= i2
                < self.spec_sym_count() && 0 <= j2 < self.spec_sym_refs(i2).len() && (i1 != i2 || j1
                != j2) ==> spec_refs_disjoint(self.spec_sym_refs(i1)[j1], self.spec_sym_refs(i2)[j2])
    }

    /// The engine's invariant: the current address `base + buffer length`
    /// fits in 32 bits, and the pending references are usable and pairwise
    /// disjoint.
    pub open spec fn wf(&self) -> bool {
        &&& self.spec_base() + self.spec_mem().len() <= u32::MAX
        &&& self.spec_refs_wf()
        &&& self.spec_refs_pairwise_disjoint()
    }

    /// Symbol `i` is in the same state in `pre` and `post`.
    pub open spec fn spec_sym_state_eq(pre: &DynAsm, post: &DynAsm, i: int) -> bool {
        &&& post.spec_sym_resolved(i) == pre.spec_sym_resolved(i)
        &&& pre.spec_sym_resolved(i) ==> post.spec_sym_value(i) == pre.spec_sym_value(i)
        &&& post.spec_sym_refs(i) == pre.spec_sym_refs(i)
    }

    /// The whole symbol table is in the same state in `pre` and `post`.
    pub open spec fn spec_syms_eq(pre: &DynAsm, post: &DynAsm) -> bool {
        &&& post.spec_sym_count() == pre.spec_sym_count()
        &&& forall|i: int|
            0 <= i < pre.spec_sym_count() ==> #[trigger] Self::spec_sym_state_eq(pre, post, i)
    }

    /// What resolving symbol `id` to `addr` does to the engine: the symbol
    /// becomes resolved, every unit its pending references pointed at is
    /// patched with the matching half of `addr`, every other byte and every
    /// other symbol stay as they were, and the buffer keeps its length.
    pub open spec fn spec_resolved_state(pre: &DynAsm, post: &DynAsm, id: int, addr: u32) -> bool {
        &&& post.spec_base() == pre.spec_base()
        &&& post.spec_sym_count() == pre.spec_sym_count()
        &&& post.spec_sym_resolved(id)
        &&& post.spec_sym_value(id) == addr
        &&& post.spec_sym_refs(id) == Seq::<SymRef>::empty()
        &&& forall|i: int|
            0 <= i < pre.spec_sym_count() && i != id ==> #[trigger] Self::spec_sym_state_eq(
                pre,
                post,
                i,
            )
        &&& post.spec_mem().len() == pre.spec_mem().len()
        &&& forall|j: int|
            0 <= j < pre.spec_sym_refs(id).len() ==> {
                let r = #[trigger] pre.spec_sym_refs(id)[j];
                spec_unit_at(post.spec_mem(), r.offset as int) == spec_patched_unit(
                    spec_unit_at(pre.spec_mem(), r.offset as int),
                    r.kind,
                    addr,
                )
            }
        &&& forall|p: int|
            0 <= p < pre.spec_mem().len() && !spec_in_ref_ranges(pre.spec_sym_refs(id), p)
                ==> post.spec_mem()[p] == pre.spec_mem()[p]
    }

    /// Creates an engine for code loaded at `base`, with an empty buffer and
    /// an empty symbol table.
    pub fn new(base: u32) -> (r: Self)
        ensures
            r.wf(),
            r.spec_base() == base,
            r.spec_mem() == Seq::<u8>::empty(),
            r.spec_sym_count() == 0,
    {
        Self { base, memory: Vec::new(), symbols: Vec::new() }
    }

    /// The current offset: the buffer's length.
    fn offset(&self) -> (r: u32)
        requires
            self.spec_mem().len() <= u32::MAX,
        ensures
            r == self.spec_mem().len(),
    {
        #[verifier::truncate]
        let r = self.memory.len() as u32;
        r
    }

    /// The current address: the load base plus the buffer's length.
    fn addr(&self) -> (r: u32)
        requires
            self.spec_base() + self.spec_mem().len() <= u32::MAX,
        ensures
            r == self.spec_base() + self.spec_mem().len(),
    {
        self.offset() + self.base
    }

    /// Allocates a fresh unresolved symbol with no pending references.
    pub fn new_sym(&mut self) -> (r: Sym)
        requires
            old(self).wf(),
        ensures
            final(self).wf(),
            final(self).spec_base() == old(self).spec_base(),
            final(self).spec_mem() == old(self).spec_mem(),
            final(self).spec_sym_count() == old(self).spec_sym_count() + 1,
            r.spec_id() == old(self).spec_sym_count(),
            !final(self).spec_sym_resolved(r.spec_id()),
            final(self).spec_sym_refs(r.spec_id()) == Seq::<SymRef>::empty(),
            forall|i: int|
                0 <= i < old(self).spec_sym_count() ==> #[trigger] Self::spec_sym_state_eq(
                    old(self),
                    final(self),
                    i,
                ),
    {
        let entry = Symbol::Unresolved(Vec::new());
        self.symbols.push(entry);
        proof {
            let pre = old(self);
            let n = pre.spec_sym_count();
            assert(self.spec_sym_refs(n) == Seq::<SymRef>::empty());
            assert forall|i: int| 0 <= i < n implies #[trigger] Self::spec_sym_state_eq(
                pre,
                self,
                i,
            ) by {
                assert(self.symbols@[i] == pre.symbols@[i]);
            }
            assert forall|i: int, j: int|
                0 <= i < self.spec_sym_count() && 0 <= j < self.spec_sym_refs(i).len()
                implies spec_ref_ok(self.spec_mem(), #[trigger] self.spec_sym_refs(i)[j]) by {
                assert(i < n);
                assert(self.spec_sym_refs(i) == pre.spec_sym_refs(i));
            }
            assert forall|i1: int, j1: int, i2: int, j2: int|
                #![trigger self.spec_sym_refs(i1)[j1], self.spec_sym_refs(i2)[j2]]
                0 <= i1 < self.spec_sym_count() && 0 <= j1 < self.spec_sym_refs(i1).len() && 0 <= i2
                    < self.spec_sym_count() && 0 <= j2 < self.spec_sym_refs(i2).len() && (i1 != i2
                    || j1 != j2) implies spec_refs_disjoint(
                self.spec_sym_refs(i1)[j1],
                self.spec_sym_refs(i2)[j2],
            ) by {
                assert(i1 < n && i2 < n);
                assert(self.spec_sym_refs(i1) == pre.spec_sym_refs(i1));
                assert(self.spec_sym_refs(i2) == pre.spec_sym_refs(i2));
            }
        }
        Sym(self.symbols.len() - 1)
    }

    /// The address a symbol resolved to: `None` while it is unresolved, an
    /// error for a handle this engine never issued.
    pub fn sym_addr(&mut self, sym: Sym) -> (r: Result<Option<u32>, DynAsmError>)
        ensures
            *final(self) == *old(self),
            match r {
                Ok(a) => sym.spec_id() < old(self).spec_sym_count() && a == if old(
                    self,
                ).spec_sym_resolved(sym.spec_id()) {
                    Some(old(self).spec_sym_value(sym.spec_id()))
                } else {
                    None::<u32>
                },
                Err(e) => sym.spec_id() >= old(self).spec_sym_count() && e matches
                    DynAsmError::InvalidSym,
            },
    {
        if sym.0 >= self.symbols.len() {
            return Err(DynAsmError::InvalidSym);
        }
        match &self.symbols[sym.0] {
            Symbol::Unresolved(_) => Ok(None),
            Symbol::Resolved(a) => Ok(Some(*a)),
        }
    }

    /// The finished buffer.
    pub fn memory(&self) -> (r: &Vec<u8>)
        ensures
            r@ == self.spec_mem(),
    {
        &self.memory
    }
}

/// A patched I-type unit still is an I-type unit of 6 bytes, and decodes to
/// the same instruction with the selected address half as its immediate.
pub proof fn lemma_patched_unit_decodes(unit: Seq<u8>, kind: SymRefKind, addr: u32)
    requires
        spec_unit_is_itype(unit),
    ensures
        ({
            let p = spec_patched_unit(unit, kind, addr);
            &&& p.len() == 6
            &&& spec_unit_is_itype(p)
            &&& spec_decode_instr(p) == Some(
                spec_set_imm(spec_decode_instr(unit).unwrap(), spec_half(kind, addr)),
            )
        }),
{
    let j = spec_decode_instr(unit).unwrap();
    let j2 = spec_set_imm(j, spec_half(kind, addr));
    crate::ais::lemma_itype_decode_canonical(unit, spec_half(kind, addr));
    crate::ais::lemma_encoding_len(j2);
    crate::ais::lemma_round_trip(j2);
}

/// The two immediates of a two-instruction load sequence reconstruct the
/// loaded word: the low half OR'd with the high half shifted back up.
pub proof fn lemma_load_halves_reconstruct(imm: u32)
    by (bit_vector)
    ensures
        ((imm as u16) as u32) | ((((imm >> 16) as u16) as u32) << 16) == imm,
{
}

/// Resolving a symbol patches every unit its references pointed at: after
/// resolution such a unit decodes to the instruction it held before, with its
/// immediate now equal to the matching half of the resolved address.
pub proof fn lemma_resolution_patches_references(
    pre: &DynAsm,
    post: &DynAsm,
    id: int,
    addr: u32,
    j: int,
)
    requires
        pre.wf(),
        DynAsm::spec_resolved_state(pre, post, id, addr),
        0 <= id < pre.spec_sym_count(),
        0 <= j < pre.spec_sym_refs(id).len(),
    ensures
        ({
            let r = pre.spec_sym_refs(id)[j];
            let d = spec_decode_instr(spec_unit_at(post.spec_mem(), r.offset as int));
            &&& d is Some
            &&& d.unwrap().imm == Some(spec_half(r.kind, addr))
            &&& d.unwrap().opcode == spec_decode_instr(
                spec_unit_at(pre.spec_mem(), r.offset as int),
            ).unwrap().opcode
        }),
{
    let r = pre.spec_sym_refs(id)[j];
    assert(spec_ref_ok(pre.spec_mem(), r));
    lemma_patched_unit_decodes(spec_unit_at(pre.spec_mem(), r.offset as int), r.kind, addr);
}

/// Patches the 6-byte unit that `sym_ref` points at: decodes it, overwrites
/// its immediate with the matching half of `addr`, re-encodes, and splices
/// the new bytes in place. The unit decodes to an I-type instruction by the
/// engine's invariant, so the re-encoding has the same length and the splice
/// succeeds; the checks stay in the code because the relocation must stop
/// rather than corrupt the buffer if they ever failed.
fn patch_unit(mem: &mut Vec<u8>, sym_ref: SymRef, addr: u32) -> (r: Result<(), DynAsmError>)
    requires
        spec_ref_ok(old(mem)@, sym_ref),
    ensures
        r is Ok,
        final(mem)@.len() == old(mem)@.len(),
        spec_unit_at(final(mem)@, sym_ref.offset as int) == spec_patched_unit(
            spec_unit_at(old(mem)@, sym_ref.offset as int),
            sym_ref.kind,
            addr,
        ),
        forall|p: int|
            0 <= p < old(mem)@.len() && !(sym_ref.offset <= p < sym_ref.offset + 6)
                ==> final(mem)@[p] == old(mem)@[p],
{
    let ghost old_unit = spec_unit_at(old(mem)@, sym_ref.offset as int);
    proof {
        lemma_patched_unit_decodes(old_unit, sym_ref.kind, addr);
    }
    let start = sym_ref.offset as usize;
    let mlen = mem.len();
    proof {
        assert(start == sym_ref.offset as int);
        assert(start + 6 <= mlen);
    }
    let unit = vstd::slice::slice_subrange(mem.as_slice(), start, start + 6);
    let (mut instr, len) = match Instruction::decode(unit) {
        Ok(x) => x,
        Err(_) => {
            return vstd::pervasive::unreached();
        },
    };
    match sym_ref.kind {
        SymRefKind::LowImm => {
            #[verifier::truncate]
            let half = (addr & 0xFFFF) as u16;
            instr.imm = Some(half);
        },
        SymRefKind::HighImm => {
            #[verifier::truncate]
            let half = ((addr >> 16) & 0xFFFF) as u16;
            instr.imm = Some(half);
        },
    }
    proof {
        assert(instr == spec_set_imm(
            spec_decode_instr(old_unit).unwrap(),
            spec_half(sym_ref.kind, addr),
        ));
        crate::ais::lemma_itype_decode_canonical(old_unit, spec_half(sym_ref.kind, addr));
        crate::ais::lemma_canonical_encodable(instr);
    }
    let new_bytes = match instr.encode() {
        Ok(b) => b,
        Err(_) => {
            return vstd::pervasive::unreached();
        },
    };
    if new_bytes.len() != len {
        return Err(DynAsmError::ResolveUnstable);
    }
    let mut j: usize = 0;
    while j < 6
        invariant
            0 <= j <= 6,
            new_bytes@.len() == 6,
            start == sym_ref.offset,
            start + 6 <= mem@.len(),
            mem@.len() <= usize::MAX,
            mem@.len() == old(mem)@.len(),
            forall|p: int|
                0 <= p < old(mem)@.len() && !(start <= p < start + j) ==> mem@[p] == old(mem)@[p],
            forall|p: int| start <= p < start + j ==> mem@[p] == new_bytes@[p - start],
        decreases 6 - j,
    {
        let b = new_bytes[j];
        self_set(mem, start + j, b);
        j += 1;
    }
    proof {
        assert(spec_unit_at(mem@, sym_ref.offset as int) =~= new_bytes@);
    }
    Ok(())
}

impl DynAsm {
    /// Resolves `sym` to `addr`: marks it resolved and patches every unit its
    /// pending references recorded, each with the address half its kind
    /// selects. Fails without any change for a foreign handle or a symbol
    /// already resolved.
    fn sym_resolve(&mut self, sym: Sym, addr: u32) -> (r: Result<(), DynAsmError>)
        requires
            old(self).wf(),
        ensures
            final(self).wf(),
            final(self).spec_base() == old(self).spec_base(),
            final(self).spec_sym_count() == old(self).spec_sym_count(),
            match r {
                Ok(()) => sym.spec_id() < old(self).spec_sym_count() && !old(
                    self,
                ).spec_sym_resolved(sym.spec_id()) && Self::spec_resolved_state(
                    old(self),
                    final(self),
                    sym.spec_id(),
                    addr,
                ),
                Err(DynAsmError::InvalidSym) => sym.spec_id() >= old(self).spec_sym_count()
                    && *final(self) == *old(self),
                Err(DynAsmError::SymbolRedefined) => sym.spec_id() < old(self).spec_sym_count()
                    && old(self).spec_sym_resolved(sym.spec_id()) && *final(self) == *old(self),
                _ => false,
            },
    {
        if sym.0 >= self.symbols.len() {
            return Err(DynAsmError::InvalidSym);
        }
        let already = matches!(&self.symbols[sym.0], Symbol::Resolved(_));
        if already {
            return Err(DynAsmError::SymbolRedefined);
        }
        let ghost id = sym.0 as int;
        let ghost pre = *old(self);
        let ghost pre_mem = old(self).spec_mem();
        let old_sym = self.symbols.remove(sym.0);
        self.symbols.insert(sym.0, Symbol::Resolved(addr));
        proof {
            assert(self.symbols@ =~= pre.symbols@.update(id, Symbol::Resolved(addr)));
        }
        let refs = match old_sym {
            Symbol::Unresolved(refs) => refs,
            Symbol::Resolved(_) => {
                return vstd::pervasive::unreached();
            },
        };
        let ghost all = refs@;
        proof {
            assert(all == pre.spec_sym_refs(id));
        }
        let mut k: usize = 0;
        while k < refs.len()
            invariant
                0 <= k <= refs.len(),
                refs@ == all,
                all == pre.spec_sym_refs(id),
                pre.wf(),
                self.spec_base() == pre.spec_base(),
                self.symbols@ == pre.symbols@.update(id, Symbol::Resolved(addr)),
                0 <= id < pre.spec_sym_count(),
                self.spec_mem().len() == pre_mem.len(),
                pre_mem == pre.spec_mem(),
                pre_mem.len() <= usize::MAX,
                forall|m: int|
                    0 <= m < k ==> spec_unit_at(
                        self.spec_mem(),
                        (#[trigger] all[m]).offset as int,
                    ) == spec_patched_unit(spec_unit_at(pre_mem, all[m].offset as int), all[m].kind, addr),
                forall|p: int|
                    0 <= p < pre_mem.len() && !spec_in_ref_ranges(all.take(k as int), p)
                        ==> self.spec_mem()[p] == pre_mem[p],
            decreases refs.len() - k,
        {
            let ghost mid_mem = self.spec_mem();
            let r = refs[k];
            proof {
                assert(all[k as int] == pre.spec_sym_refs(id)[k as int]);
                assert(spec_ref_ok(pre_mem, r));
                assert forall|p: int| r.offset <= p < r.offset + 6 implies self.spec_mem()[p]
                    == pre_mem[p] by {
                    if spec_in_ref_ranges(all.take(k as int), p) {
                        let m = choose|m: int|
                            0 <= m < k && (#[trigger] all.take(k as int)[m]).offset <= p
                                < all.take(k as int)[m].offset + 6;
                        assert(all.take(k as int)[m] == pre.spec_sym_refs(id)[m]);
                        assert(spec_refs_disjoint(
                            pre.spec_sym_refs(id)[m],
                            pre.spec_sym_refs(id)[k as int],
                        ));
                        assert(false);
                    }
                }
                assert(spec_unit_at(self.spec_mem(), r.offset as int) =~= spec_unit_at(
                    pre_mem,
                    r.offset as int,
                ));
                assert(spec_ref_ok(self.spec_mem(), r));
            }
            let res = patch_unit(&mut self.memory, r, addr);
            match res {
                Ok(()) => {},
                Err(_) => {
                    return vstd::pervasive::unreached();
                },
            }
            proof {
                // Units already patched lie outside the range this patch
                // touched, so they keep their patched contents.
                assert forall|m: int| 0 <= m < k implies spec_unit_at(
                    self.spec_mem(),
                    (#[trigger] all[m]).offset as int,
                ) == spec_patched_unit(
                    spec_unit_at(pre_mem, all[m].offset as int),
                    all[m].kind,
                    addr,
                ) by {
                    assert(all[m] == pre.spec_sym_refs(id)[m]);
                    assert(spec_refs_disjoint(
                        pre.spec_sym_refs(id)[m],
                        pre.spec_sym_refs(id)[k as int],
                    ));
                    assert(spec_ref_ok(pre_mem, all[m]));
                    assert(spec_unit_at(self.spec_mem(), all[m].offset as int) =~= spec_unit_at(
                        mid_mem,
                        all[m].offset as int,
                    ));
                }
                // A byte outside the first k + 1 reference ranges is outside
                // the first k ranges and outside this patch's range.
                assert forall|p: int|
                    0 <= p < pre_mem.len() && !spec_in_ref_ranges(all.take(k as int + 1), p)
                    implies self.spec_mem()[p] == pre_mem[p] by {
                    assert forall|m: int|
                        0 <= m < k + 1 implies !((#[trigger] all.take(k as int + 1)[m]).offset <= p
                        < all.take(k as int + 1)[m].offset + 6) by {}
                    if spec_in_ref_ranges(all.take(k as int), p) {
                        let m = choose|m: int|
                            0 <= m < k && (#[trigger] all.take(k as int)[m]).offset <= p
                                < all.take(k as int)[m].offset + 6;
                        assert(all.take(k as int + 1)[m] == all.take(k as int)[m]);
                        assert(false);
                    }
                    assert(all.take(k as int + 1)[k as int] == all[k as int]);
                    assert(!(r.offset <= p < r.offset + 6));
                    assert(self.spec_mem()[p] == mid_mem[p]);
                }
            }
            k += 1;
        }
        proof {
            assert(all.take(all.len() as int) =~= all);
            // The symbol table after resolution: the resolved entry, the rest
            // unchanged.
            assert forall|i: int| 0 <= i < pre.spec_sym_count() && i != id implies
                #[trigger] Self::spec_sym_state_eq(&pre, self, i) by {
                assert(self.symbols@[i] == pre.symbols@[i]);
            }
            assert(Self::spec_resolved_state(&pre, self, id, addr));
            // Well-formedness: the resolved symbol keeps no references, and
            // every other reference's unit lies outside all patched ranges.
            assert forall|i: int, j: int|
                0 <= i < self.spec_sym_count() && 0 <= j < self.spec_sym_refs(i).len()
                implies spec_ref_ok(self.spec_mem(), #[trigger] self.spec_sym_refs(i)[j]) by {
                assert(i != id);
                assert(self.spec_sym_refs(i) == pre.spec_sym_refs(i));
                let rr = pre.spec_sym_refs(i)[j];
                assert(spec_ref_ok(pre_mem, rr));
                assert forall|p: int| rr.offset <= p < rr.offset + 6 implies self.spec_mem()[p]
                    == pre_mem[p] by {
                    if spec_in_ref_ranges(all, p) {
                        let m = choose|m: int|
                            0 <= m < all.len() && (#[trigger] all[m]).offset <= p < all[m].offset
                                + 6;
                        assert(all[m] == pre.spec_sym_refs(id)[m]);
                        assert(spec_refs_disjoint(
                            pre.spec_sym_refs(id)[m],
                            pre.spec_sym_refs(i)[j],
                        ));
                        assert(false);
                    }
                }
                assert(spec_unit_at(self.spec_mem(), rr.offset as int) =~= spec_unit_at(
                    pre_mem,
                    rr.offset as int,
                ));
            }
            assert forall|i1: int, j1: int, i2: int, j2: int|
                #![trigger self.spec_sym_refs(i1)[j1], self.spec_sym_refs(i2)[j2]]
                0 <= i1 < self.spec_sym_count() && 0 <= j1 < self.spec_sym_refs(i1).len() && 0 <= i2
                    < self.spec_sym_count() && 0 <= j2 < self.spec_sym_refs(i2).len() && (i1 != i2
                    || j1 != j2) implies spec_refs_disjoint(
                self.spec_sym_refs(i1)[j1],
                self.spec_sym_refs(i2)[j2],
            ) by {
                assert(i1 != id && i2 != id);
                assert(self.spec_sym_refs(i1) == pre.spec_sym_refs(i1));
                assert(self.spec_sym_refs(i2) == pre.spec_sym_refs(i2));
            }
        }
        Ok(())
    }

    /// Resolves `sym` to the current address: the load base plus the buffer's
    /// length at this moment. Fails with a redefinition error if `sym` is
    /// already resolved, and with an invalid-handle error for a handle this
    /// engine never issued; either failure leaves the engine unchanged.
    pub fn set_sym_here(&mut self, sym: Sym) -> (r: Result<(), DynAsmError>)
        requires
            old(self).wf(),
        ensures
            final(self).wf(),
            final(self).spec_base() == old(self).spec_base(),
            final(self).spec_sym_count() == old(self).spec_sym_count(),
            match r {
                Ok(()) => sym.spec_id() < old(self).spec_sym_count() && !old(
                    self,
                ).spec_sym_resolved(sym.spec_id()) && Self::spec_resolved_state(
                    old(self),
                    final(self),
                    sym.spec_id(),
                    (old(self).spec_base() + old(self).spec_mem().len()) as u32,
                ),
                Err(DynAsmError::InvalidSym) => sym.spec_id() >= old(self).spec_sym_count()
                    && *final(self) == *old(self),
                Err(DynAsmError::SymbolRedefined) => sym.spec_id() < old(self).spec_sym_count()
                    && old(self).spec_sym_resolved(sym.spec_id()) && *final(self) == *old(self),
                _ => false,
            },
    {
        let a = self.addr();
        self.sym_resolve(sym, a)
    }

    /// Allocates a symbol and immediately resolves it to the current address.
    pub fn new_sym_here(&mut self) -> (r: Sym)
        requires
            old(self).wf(),
        ensures
            final(self).wf(),
            final(self).spec_base() == old(self).spec_base(),
            final(self).spec_mem() == old(self).spec_mem(),
            final(self).spec_sym_count() == old(self).spec_sym_count() + 1,
            r.spec_id() == old(self).spec_sym_count(),
            final(self).spec_sym_resolved(r.spec_id()),
            final(self).spec_sym_value(r.spec_id()) == (old(self).spec_base() + old(
                self,
            ).spec_mem().len()) as u32,
            forall|i: int|
                0 <= i < old(self).spec_sym_count() ==> #[trigger] Self::spec_sym_state_eq(
                    old(self),
                    final(self),
                    i,
                ),
    {
        let a = self.addr();
        self.symbols.push(Symbol::Resolved(a));
        proof {
            let pre = old(self);
            let n = pre.spec_sym_count();
            assert forall|i: int| 0 <= i < n implies #[trigger] Self::spec_sym_state_eq(
                pre,
                self,
                i,
            ) by {
                assert(self.symbols@[i] == pre.symbols@[i]);
            }
            assert forall|i: int, j: int|
                0 <= i < self.spec_sym_count() && 0 <= j < self.spec_sym_refs(i).len()
                implies spec_ref_ok(self.spec_mem(), #[trigger] self.spec_sym_refs(i)[j]) by {
                assert(i < n);
                assert(self.spec_sym_refs(i) == pre.spec_sym_refs(i));
            }
            assert forall|i1: int, j1: int, i2: int, j2: int|
                #![trigger self.spec_sym_refs(i1)[j1], self.spec_sym_refs(i2)[j2]]
                0 <= i1 < self.spec_sym_count() && 0 <= j1 < self.spec_sym_refs(i1).len() && 0 <= i2
                    < self.spec_sym_count() && 0 <= j2 < self.spec_sym_refs(i2).len() && (i1 != i2
                    || j1 != j2) implies spec_refs_disjoint(
                self.spec_sym_refs(i1)[j1],
                self.spec_sym_refs(i2)[j2],
            ) by {
                assert(i1 < n && i2 < n);
                assert(self.spec_sym_refs(i1) == pre.spec_sym_refs(i1));
                assert(self.spec_sym_refs(i2) == pre.spec_sym_refs(i2));
            }
        }
        Sym(self.symbols.len() - 1)
    }
}

/// The instruction sequence that materializes a 32-bit immediate into `dst`:
/// one low-immediate OR if the high half is zero, one shifted-immediate OR if
/// only the low half is zero, otherwise both (low half first, high half OR'd
/// in on top without clearing it).
pub open spec fn spec_load_units(dst: Register, imm: u32) -> Seq<u8> {
    if imm & 0xFFFF0000 == 0 {
        spec_encoding(spec_i_type(Opcode::ORI, dst, Register::Index(0), imm as u16))
    } else if imm & 0xFFFF == 0 {
        spec_encoding(spec_i_type(Opcode::ORIU, dst, Register::Index(0), (imm >> 16) as u16))
    } else {
        spec_encoding(spec_i_type(Opcode::ORI, dst, Register::Index(0), imm as u16))
            + spec_encoding(spec_i_type(Opcode::ORIU, dst, dst, (imm >> 16) as u16))
    }
}

/// The placeholder instruction whose immediate a low-half reference patches.
pub open spec fn spec_load_sym_low(dst: Register) -> Instruction {
    spec_i_type(Opcode::ORI, dst, Register::Index(0), 0xDEAD)
}

/// The placeholder instruction whose immediate a high-half reference patches.
pub open spec fn spec_load_sym_high(dst: Register) -> Instruction {
    spec_i_type(Opcode::ORIU, dst, dst, 0xDEAD)
}

/// Symbol-table equality composes across intermediate states.
proof fn lemma_syms_eq_trans(a: &DynAsm, b: &DynAsm, c: &DynAsm)
    requires
        DynAsm::spec_syms_eq(a, b),
        DynAsm::spec_syms_eq(b, c),
    ensures
        DynAsm::spec_syms_eq(a, c),
{
    assert forall|i: int| 0 <= i < a.spec_sym_count() implies #[trigger] DynAsm::spec_sym_state_eq(
        a,
        c,
        i,
    ) by {
        assert(DynAsm::spec_sym_state_eq(a, b, i));
        assert(DynAsm::spec_sym_state_eq(b, c, i));
    }
}

/// The fixed 11-byte trampoline prologue: a short x86 sequence that computes
/// its own address and switches the processor into the alternate instruction
/// set, landing execution at the first body instruction. Opaque to the codec
/// and never patched.
pub open spec fn spec_header() -> Seq<u8> {
    seq![0xE8u8, 0x00u8, 0x00u8, 0x00u8, 0x00u8, 0x58u8, 0x83u8, 0xC0u8, 0x06u8, 0x0Fu8, 0x3Fu8]
}

/// The fixed 1-byte trampoline epilogue: a plain x86 return.
pub open spec fn spec_footer() -> Seq<u8> {
    seq![0xC3u8]
}

/// Appending bytes to the buffer, without touching the symbol table, keeps
/// the engine well-formed: every pending reference's unit lies in the
/// untouched prefix.
proof fn lemma_wf_preserved_by_append(pre: &DynAsm, post: &DynAsm)
    requires
        pre.wf(),
        post.spec_base() == pre.spec_base(),
        post.spec_sym_count() == pre.spec_sym_count(),
        forall|i: int|
            0 <= i < pre.spec_sym_count() ==> #[trigger] DynAsm::spec_sym_state_eq(pre, post, i),
        pre.spec_mem().len() <= post.spec_mem().len(),
        forall|p: int| 0 <= p < pre.spec_mem().len() ==> post.spec_mem()[p] == pre.spec_mem()[p],
        post.spec_base() + post.spec_mem().len() <= u32::MAX,
    ensures
        post.wf(),
{
    assert forall|i: int, j: int|
        0 <= i < post.spec_sym_count() && 0 <= j < post.spec_sym_refs(i).len()
        implies spec_ref_ok(post.spec_mem(), #[trigger] post.spec_sym_refs(i)[j]) by {
        assert(DynAsm::spec_sym_state_eq(pre, post, i));
        assert(post.spec_sym_refs(i) == pre.spec_sym_refs(i));
        let r = pre.spec_sym_refs(i)[j];
        assert(spec_ref_ok(pre.spec_mem(), r));
        assert(spec_unit_at(post.spec_mem(), r.offset as int) =~= spec_unit_at(
            pre.spec_mem(),
            r.offset as int,
        ));
    }
    assert forall|i1: int, j1: int, i2: int, j2: int|
        #![trigger post.spec_sym_refs(i1)[j1], post.spec_sym_refs(i2)[j2]]
        0 <= i1 < post.spec_sym_count() && 0 <= j1 < post.spec_sym_refs(i1).len() && 0 <= i2
            < post.spec_sym_count() && 0 <= j2 < post.spec_sym_refs(i2).len() && (i1 != i2 || j1
            != j2) implies spec_refs_disjoint(
        post.spec_sym_refs(i1)[j1],
        post.spec_sym_refs(i2)[j2],
    ) by {
        assert(DynAsm::spec_sym_state_eq(pre, post, i1));
        assert(DynAsm::spec_sym_state_eq(pre, post, i2));
        assert(post.spec_sym_refs(i1) == pre.spec_sym_refs(i1));
        assert(post.spec_sym_refs(i2) == pre.spec_sym_refs(i2));
    }
}

impl DynAsm {
    /// Encodes the instruction and appends its 6 bytes to the buffer. A codec
    /// error propagates unchanged and the buffer keeps its length: there is
    /// no partial write.
    pub fn gen(&mut self, instruction: Instruction) -> (r: Result<(), DynAsmError>)
        requires
            old(self).wf(),
            old(self).spec_base() + old(self).spec_mem().len() + 6 <= u32::MAX,
        ensures
            final(self).wf(),
            final(self).spec_base() == old(self).spec_base(),
            Self::spec_syms_eq(old(self), final(self)),
            match r {
                Ok(()) => spec_encodable(instruction) && final(self).spec_mem() == old(
                    self,
                ).spec_mem() + spec_encoding(instruction),
                Err(DynAsmError::AisError(e)) => !spec_encodable(instruction) && e
                    == spec_encode_err(instruction) && final(self).spec_mem() == old(
                    self,
                ).spec_mem(),
                _ => false,
            },
    {
        let mut bytes = match instruction.encode() {
            Ok(b) => b,
            Err(e) => {
                return Err(DynAsmError::AisError(e));
            },
        };
        proof {
            crate::ais::lemma_encoding_len(instruction);
        }
        self.memory.append(&mut bytes);
        proof {
            lemma_wf_preserved_by_append(old(self), self);
        }
        Ok(())
    }

    /// Records a pending reference of the given kind against `sym`, at the
    /// offset of the instruction just emitted (the buffer's last 6 bytes). If
    /// `sym` is already resolved, the unit is patched immediately instead;
    /// the outcome is the same as if the symbol had been resolved later.
    ///
    /// The last unit must decode as an I-type instruction, and every
    /// reference recorded so far must lie before it: both hold wherever the
    /// engine calls this, right after emitting a load-immediate instruction.
    fn sym_fixup(&mut self, sym: Sym, kind: SymRefKind) -> (r: Result<(), DynAsmError>)
        requires
            old(self).wf(),
            old(self).spec_mem().len() >= 6,
            spec_unit_is_itype(
                spec_unit_at(old(self).spec_mem(), old(self).spec_mem().len() - 6),
            ),
            forall|i: int, j: int|
                0 <= i < old(self).spec_sym_count() && 0 <= j < old(self).spec_sym_refs(i).len()
                    ==> (#[trigger] old(self).spec_sym_refs(i)[j]).offset + 12 <= old(
                    self,
                ).spec_mem().len(),
        ensures
            final(self).wf(),
            final(self).spec_base() == old(self).spec_base(),
            final(self).spec_sym_count() == old(self).spec_sym_count(),
            match r {
                Err(DynAsmError::InvalidSym) => sym.spec_id() >= old(self).spec_sym_count()
                    && *final(self) == *old(self),
                Ok(()) => sym.spec_id() < old(self).spec_sym_count() && {
                    let tail = old(self).spec_mem().len() - 6;
                    if !old(self).spec_sym_resolved(sym.spec_id()) {
                        &&& final(self).spec_mem() == old(self).spec_mem()
                        &&& !final(self).spec_sym_resolved(sym.spec_id())
                        &&& final(self).spec_sym_refs(sym.spec_id()) == old(self).spec_sym_refs(
                            sym.spec_id(),
                        ).push(SymRef { kind, offset: tail as u32 })
                        &&& forall|i: int|
                            0 <= i < old(self).spec_sym_count() && i != sym.spec_id()
                                ==> #[trigger] Self::spec_sym_state_eq(old(self), final(self), i)
                    } else {
                        let a = old(self).spec_sym_value(sym.spec_id());
                        &&& Self::spec_syms_eq(old(self), final(self))
                        &&& final(self).spec_mem().len() == old(self).spec_mem().len()
                        &&& spec_unit_at(final(self).spec_mem(), tail) == spec_patched_unit(
                            spec_unit_at(old(self).spec_mem(), tail),
                            kind,
                            a,
                        )
                        &&& forall|p: int|
                            0 <= p < old(self).spec_mem().len() && !(tail <= p < tail + 6)
                                ==> final(self).spec_mem()[p] == old(self).spec_mem()[p]
                    }
                },
                _ => false,
            },
    {
        let off = self.offset() - 6;
        let sym_ref = SymRef { kind, offset: off };
        if sym.0 >= self.symbols.len() {
            return Err(DynAsmError::InvalidSym);
        }
        let ghost pre = *old(self);
        let ghost id = sym.0 as int;
        let entry = self.symbols.remove(sym.0);
        match entry {
            Symbol::Unresolved(mut refs) => {
                refs.push(sym_ref);
                self.symbols.insert(sym.0, Symbol::Unresolved(refs));
                proof {
                    assert(self.symbols@ =~= pre.symbols@.update(
                        id,
                        Symbol::Unresolved(refs),
                    ));
                    assert(self.spec_sym_refs(id) == pre.spec_sym_refs(id).push(sym_ref));
                    assert forall|i: int|
                        0 <= i < pre.spec_sym_count() && i != id implies
                        #[trigger] Self::spec_sym_state_eq(&pre, self, i) by {
                        assert(self.symbols@[i] == pre.symbols@[i]);
                    }
                    let n_old = pre.spec_sym_refs(id).len() as int;
                    assert forall|i: int, j: int|
                        0 <= i < self.spec_sym_count() && 0 <= j < self.spec_sym_refs(i).len()
                        implies spec_ref_ok(self.spec_mem(), #[trigger] self.spec_sym_refs(i)[j])
                        by {
                        if i == id && j == n_old {
                            assert(self.spec_sym_refs(i)[j] == sym_ref);
                        } else {
                            assert(self.spec_sym_refs(i)[j] == pre.spec_sym_refs(i)[j]);
                            assert(spec_ref_ok(pre.spec_mem(), pre.spec_sym_refs(i)[j]));
                        }
                    }
                    assert forall|i1: int, j1: int, i2: int, j2: int|
                        #![trigger self.spec_sym_refs(i1)[j1], self.spec_sym_refs(i2)[j2]]
                        0 <= i1 < self.spec_sym_count() && 0 <= j1 < self.spec_sym_refs(i1).len()
                            && 0 <= i2 < self.spec_sym_count() && 0 <= j2 < self.spec_sym_refs(
                            i2,
                        ).len() && (i1 != i2 || j1 != j2) implies spec_refs_disjoint(
                        self.spec_sym_refs(i1)[j1],
                        self.spec_sym_refs(i2)[j2],
                    ) by {
                        if i1 == id && j1 == n_old {
                            assert(self.spec_sym_refs(i2)[j2] == pre.spec_sym_refs(i2)[j2]);
                            assert((pre.spec_sym_refs(i2)[j2]).offset + 12 <= pre.spec_mem().len());
                        } else if i2 == id && j2 == n_old {
                            assert(self.spec_sym_refs(i1)[j1] == pre.spec_sym_refs(i1)[j1]);
                            assert((pre.spec_sym_refs(i1)[j1]).offset + 12 <= pre.spec_mem().len());
                        } else {
                            assert(self.spec_sym_refs(i1)[j1] == pre.spec_sym_refs(i1)[j1]);
                            assert(self.spec_sym_refs(i2)[j2] == pre.spec_sym_refs(i2)[j2]);
                        }
                    }
                }
                Ok(())
            },
            Symbol::Resolved(a) => {
                self.symbols.insert(sym.0, Symbol::Resolved(a));
                proof {
                    assert(self.symbols@ =~= pre.symbols@);
                    assert forall|i: int| 0 <= i < pre.spec_sym_count() implies
                        #[trigger] Self::spec_sym_state_eq(&pre, self, i) by {
                        assert(self.symbols@[i] == pre.symbols@[i]);
                    }
                }
                let ghost mid = *self;
                let res = patch_unit(&mut self.memory, sym_ref, a);
                match res {
                    Ok(()) => {},
                    Err(_) => {
                        return vstd::pervasive::unreached();
                    },
                }
                proof {
                    assert forall|i: int| 0 <= i < pre.spec_sym_count() implies
                        #[trigger] Self::spec_sym_state_eq(&pre, self, i) by {
                        assert(self.symbols@[i] == pre.symbols@[i]);
                    }
                    assert forall|i: int, j: int|
                        0 <= i < self.spec_sym_count() && 0 <= j < self.spec_sym_refs(i).len()
                        implies spec_ref_ok(self.spec_mem(), #[trigger] self.spec_sym_refs(i)[j])
                        by {
                        assert(self.spec_sym_refs(i) == pre.spec_sym_refs(i));
                        let rr = pre.spec_sym_refs(i)[j];
                        assert(spec_ref_ok(pre.spec_mem(), rr));
                        assert(rr.offset + 12 <= pre.spec_mem().len());
                        assert(spec_unit_at(self.spec_mem(), rr.offset as int) =~= spec_unit_at(
                            pre.spec_mem(),
                            rr.offset as int,
                        ));
                    }
                    assert forall|i1: int, j1: int, i2: int, j2: int|
                        #![trigger self.spec_sym_refs(i1)[j1], self.spec_sym_refs(i2)[j2]]
                        0 <= i1 < self.spec_sym_count() && 0 <= j1 < self.spec_sym_refs(i1).len()
                            && 0 <= i2 < self.spec_sym_count() && 0 <= j2 < self.spec_sym_refs(
                            i2,
                        ).len() && (i1 != i2 || j1 != j2) implies spec_refs_disjoint(
                        self.spec_sym_refs(i1)[j1],
                        self.spec_sym_refs(i2)[j2],
                    ) by {
                        assert(self.spec_sym_refs(i1)[j1] == pre.spec_sym_refs(i1)[j1]);
                        assert(self.spec_sym_refs(i2)[j2] == pre.spec_sym_refs(i2)[j2]);
                    }
                }
                Ok(())
            },
        }
    }

    /// Appends the fixed trampoline prologue to the buffer.
    pub fn gen_header(&mut self)
        requires
            old(self).wf(),
            old(self).spec_base() + old(self).spec_mem().len() + 11 <= u32::MAX,
        ensures
            final(self).wf(),
            final(self).spec_base() == old(self).spec_base(),
            Self::spec_syms_eq(old(self), final(self)),
            final(self).spec_mem() == old(self).spec_mem() + spec_header(),
    {
        self.memory.push(0xE8);
        self.memory.push(0x00);
        self.memory.push(0x00);
        self.memory.push(0x00);
        self.memory.push(0x00);
        self.memory.push(0x58);
        self.memory.push(0x83);
        self.memory.push(0xC0);
        self.memory.push(0x06);
        self.memory.push(0x0F);
        self.memory.push(0x3F);
        proof {
            assert(self.spec_mem() =~= old(self).spec_mem() + spec_header());
            lemma_wf_preserved_by_append(old(self), self);
        }
    }

    /// Appends the fixed trampoline epilogue to the buffer.
    pub fn gen_footer(&mut self)
        requires
            old(self).wf(),
            old(self).spec_base() + old(self).spec_mem().len() + 1 <= u32::MAX,
        ensures
            final(self).wf(),
            final(self).spec_base() == old(self).spec_base(),
            Self::spec_syms_eq(old(self), final(self)),
            final(self).spec_mem() == old(self).spec_mem() + spec_footer(),
    {
        self.memory.push(0xC3);
        proof {
            assert(self.spec_mem() =~= old(self).spec_mem() + spec_footer());
            lemma_wf_preserved_by_append(old(self), self);
        }
    }
    /// Emits the minimal instruction sequence that materializes the 32-bit
    /// immediate into `dst`: one instruction when either half of the
    /// immediate is zero, two otherwise. Fails without emitting anything when
    /// `dst` is not a valid register.
    pub fn gen_load(&mut self, dst: Register, imm: u32) -> (r: Result<(), DynAsmError>)
        requires
            old(self).wf(),
            old(self).spec_base() + old(self).spec_mem().len() + 12 <= u32::MAX,
        ensures
            final(self).wf(),
            final(self).spec_base() == old(self).spec_base(),
            Self::spec_syms_eq(old(self), final(self)),
            match r {
                Ok(()) => spec_reg_valid(dst) && final(self).spec_mem() == old(self).spec_mem()
                    + spec_load_units(dst, imm),
                Err(DynAsmError::AisError(e)) => !spec_reg_valid(dst) && e == spec_reg_err(dst)
                    && final(self).spec_mem() == old(self).spec_mem(),
                _ => false,
            },
    {
        let low_zero = imm & 0xFFFF == 0;
        let high_zero = imm & 0xFFFF0000 == 0;
        #[verifier::truncate]
        let lo = imm as u16;
        #[verifier::truncate]
        let hi = (imm >> 16) as u16;
        if high_zero {
            self.gen(Instruction::i_type(Opcode::ORI, dst, Register::Index(0), lo))
        } else if low_zero {
            self.gen(Instruction::i_type(Opcode::ORIU, dst, Register::Index(0), hi))
        } else {
            let ghost s0 = *old(self);
            match self.gen(
                Instruction::i_type(Opcode::ORI, dst.duplicate(), Register::Index(0), lo),
            ) {
                Ok(()) => {},
                Err(e) => {
                    return Err(e);
                },
            }
            let ghost s1 = *self;
            proof {
                crate::ais::lemma_encoding_len(
                    spec_i_type(Opcode::ORI, dst, Register::Index(0), lo),
                );
            }
            let r2 = self.gen(Instruction::i_type(Opcode::ORIU, dst.duplicate(), dst, hi));
            proof {
                lemma_syms_eq_trans(&s0, &s1, self);
                assert(self.spec_mem() =~= s0.spec_mem() + spec_load_units(dst, imm));
            }
            r2
        }
    }

    /// Emits the two-instruction load-immediate sequence with placeholder
    /// immediates and records a low-half and a high-half reference against
    /// `sym` at the two instructions' offsets. Against an already-resolved
    /// symbol the two units are patched immediately instead, with no pending
    /// reference left behind: the outcome is the same whether the symbol was
    /// bound before or after use. An invalid register emits nothing; an
    /// invalid symbol handle is detected after the first placeholder has been
    /// emitted, which then stays in the buffer.
    pub fn gen_load_symbol(&mut self, dst: Register, sym: Sym) -> (r: Result<(), DynAsmError>)
        requires
            old(self).wf(),
            old(self).spec_base() + old(self).spec_mem().len() + 12 <= u32::MAX,
        ensures
            final(self).wf(),
            final(self).spec_base() == old(self).spec_base(),
            final(self).spec_sym_count() == old(self).spec_sym_count(),
            match r {
                Err(DynAsmError::AisError(e)) => !spec_reg_valid(dst) && e == spec_reg_err(dst)
                    && final(self).spec_mem() == old(self).spec_mem() && Self::spec_syms_eq(
                    old(self),
                    final(self),
                ),
                Err(DynAsmError::InvalidSym) => spec_reg_valid(dst) && sym.spec_id() >= old(
                    self,
                ).spec_sym_count() && final(self).spec_mem() == old(self).spec_mem()
                    + spec_encoding(spec_load_sym_low(dst)) && Self::spec_syms_eq(
                    old(self),
                    final(self),
                ),
                Ok(()) => spec_reg_valid(dst) && sym.spec_id() < old(self).spec_sym_count() && {
                    let n = old(self).spec_mem().len();
                    if !old(self).spec_sym_resolved(sym.spec_id()) {
                        &&& final(self).spec_mem() == old(self).spec_mem() + spec_encoding(
                            spec_load_sym_low(dst),
                        ) + spec_encoding(spec_load_sym_high(dst))
                        &&& !final(self).spec_sym_resolved(sym.spec_id())
                        &&& final(self).spec_sym_refs(sym.spec_id()) == old(self).spec_sym_refs(
                            sym.spec_id(),
                        ).push(SymRef { kind: SymRefKind::LowImm, offset: n as u32 }).push(
                            SymRef { kind: SymRefKind::HighImm, offset: (n + 6) as u32 },
                        )
                        &&& forall|i: int|
                            0 <= i < old(self).spec_sym_count() && i != sym.spec_id()
                                ==> #[trigger] Self::spec_sym_state_eq(old(self), final(self), i)
                    } else {
                        let a = old(self).spec_sym_value(sym.spec_id());
                        &&& final(self).spec_mem() == old(self).spec_mem() + spec_patched_unit(
                            spec_encoding(spec_load_sym_low(dst)),
                            SymRefKind::LowImm,
                            a,
                        ) + spec_patched_unit(
                            spec_encoding(spec_load_sym_high(dst)),
                            SymRefKind::HighImm,
                            a,
                        )
                        &&& Self::spec_syms_eq(old(self), final(self))
                        &&& final(self).spec_sym_refs(sym.spec_id()) == Seq::<SymRef>::empty()
                    }
                },
                _ => false,
            },
    {
        let ghost s0 = *old(self);
        match self.gen(Instruction::i_type(Opcode::ORI, dst.duplicate(), Register::Index(0), 0xDEAD,
        )) {
            Ok(()) => {},
            Err(e) => {
                return Err(e);
            },
        }
        let ghost s1 = *self;
        proof {
            crate::ais::lemma_itype_encoding_is_itype_unit(spec_load_sym_low(dst));
            crate::ais::lemma_encoding_len(spec_load_sym_low(dst));
            assert(spec_unit_at(s1.spec_mem(), s1.spec_mem().len() - 6) =~= spec_encoding(
                spec_load_sym_low(dst),
            ));
            assert forall|i: int, j: int|
                0 <= i < s1.spec_sym_count() && 0 <= j < s1.spec_sym_refs(i).len() implies (
            #[trigger] s1.spec_sym_refs(i)[j]).offset + 12 <= s1.spec_mem().len() by {
                assert(Self::spec_sym_state_eq(&s0, &s1, i));
                assert(s1.spec_sym_refs(i)[j] == s0.spec_sym_refs(i)[j]);
                assert(spec_ref_ok(s0.spec_mem(), s0.spec_sym_refs(i)[j]));
            }
        }
        match self.sym_fixup(sym, SymRefKind::LowImm) {
            Ok(()) => {},
            Err(e) => {
                proof {
                    lemma_syms_eq_trans(&s0, &s1, self);
                }
                return Err(e);
            },
        }
        let ghost s2 = *self;
        match self.gen(Instruction::i_type(Opcode::ORIU, dst.duplicate(), dst, 0xDEAD)) {
            Ok(()) => {},
            Err(_) => {
                return vstd::pervasive::unreached();
            },
        }
        let ghost s3 = *self;
        proof {
            crate::ais::lemma_itype_encoding_is_itype_unit(spec_load_sym_high(dst));
            crate::ais::lemma_encoding_len(spec_load_sym_high(dst));
            assert(spec_unit_at(s3.spec_mem(), s3.spec_mem().len() - 6) =~= spec_encoding(
                spec_load_sym_high(dst),
            ));
            assert forall|i: int, j: int|
                0 <= i < s3.spec_sym_count() && 0 <= j < s3.spec_sym_refs(i).len() implies (
            #[trigger] s3.spec_sym_refs(i)[j]).offset + 12 <= s3.spec_mem().len() by {
                assert(Self::spec_sym_state_eq(&s2, &s3, i));
                assert(s3.spec_sym_refs(i)[j] == s2.spec_sym_refs(i)[j]);
                if !s1.spec_sym_resolved(sym.spec_id()) && i == sym.spec_id() {
                    if j < s1.spec_sym_refs(i).len() {
                        assert(s2.spec_sym_refs(i)[j] == s1.spec_sym_refs(i)[j]);
                        assert(spec_ref_ok(s1.spec_mem(), s1.spec_sym_refs(i)[j]));
                    } else {
                        assert(s2.spec_sym_refs(i)[j] == SymRef {
                            kind: SymRefKind::LowImm,
                            offset: (s1.spec_mem().len() - 6) as u32,
                        });
                    }
                } else {
                    assert(Self::spec_sym_state_eq(&s1, &s2, i));
                    assert(s2.spec_sym_refs(i)[j] == s1.spec_sym_refs(i)[j]);
                    assert(spec_ref_ok(s1.spec_mem(), s1.spec_sym_refs(i)[j]));
                }
            }
        }
        let r4 = self.sym_fixup(sym, SymRefKind::HighImm);
        match r4 {
            Ok(()) => {},
            Err(_) => {
                return vstd::pervasive::unreached();
            },
        }
        proof {
            let id = sym.spec_id();
            assert(Self::spec_sym_state_eq(&s0, &s1, id));
            assert(Self::spec_sym_state_eq(&s2, &s3, id));
            if !s0.spec_sym_resolved(id) {
                assert(self.spec_mem() == s3.spec_mem());
                assert(self.spec_mem() =~= s0.spec_mem() + spec_encoding(spec_load_sym_low(dst))
                    + spec_encoding(spec_load_sym_high(dst)));
                assert(self.spec_sym_refs(id) =~= s0.spec_sym_refs(id).push(
                    SymRef { kind: SymRefKind::LowImm, offset: s0.spec_mem().len() as u32 },
                ).push(
                    SymRef {
                        kind: SymRefKind::HighImm,
                        offset: (s0.spec_mem().len() + 6) as u32,
                    },
                ));
                assert forall|i: int| 0 <= i < s0.spec_sym_count() && i != id implies
                    #[trigger] Self::spec_sym_state_eq(&s0, self, i) by {
                    assert(Self::spec_sym_state_eq(&s0, &s1, i));
                    assert(Self::spec_sym_state_eq(&s1, &s2, i));
                    assert(Self::spec_sym_state_eq(&s2, &s3, i));
                    assert(Self::spec_sym_state_eq(&s3, self, i));
                }
            } else {
                let a = s0.spec_sym_value(id);
                assert(Self::spec_sym_state_eq(&s1, &s2, id));
                assert(s3.spec_sym_resolved(id) && s3.spec_sym_value(id) == a);
                lemma_syms_eq_trans(&s0, &s1, &s2);
                lemma_syms_eq_trans(&s0, &s2, &s3);
                lemma_syms_eq_trans(&s0, &s3, self);
                assert(Self::spec_sym_state_eq(&s0, self, id));
                self.lemma_resolved_sym_has_no_refs(id);
                let p1 = spec_patched_unit(
                    spec_encoding(spec_load_sym_low(dst)),
                    SymRefKind::LowImm,
                    a,
                );
                let p2 = spec_patched_unit(
                    spec_encoding(spec_load_sym_high(dst)),
                    SymRefKind::HighImm,
                    a,
                );
                lemma_patched_unit_decodes(
                    spec_encoding(spec_load_sym_low(dst)),
                    SymRefKind::LowImm,
                    a,
                );
                lemma_patched_unit_decodes(
                    spec_encoding(spec_load_sym_high(dst)),
                    SymRefKind::HighImm,
                    a,
                );
                let n = s0.spec_mem().len() as int;
                assert(spec_unit_at(s2.spec_mem(), n) == p1);
                assert(spec_unit_at(s3.spec_mem(), n) =~= spec_unit_at(s2.spec_mem(), n));
                assert(spec_unit_at(self.spec_mem(), n) =~= spec_unit_at(s3.spec_mem(), n));
                assert(spec_unit_at(self.spec_mem(), n + 6) == p2);
                assert(self.spec_mem().len() == n + 12);
                assert forall|p: int| 0 <= p < n + 12 implies self.spec_mem()[p] == (s0.spec_mem()
                    + p1 + p2)[p] by {
                    if p < n {
                        assert(self.spec_mem()[p] == s3.spec_mem()[p]);
                        assert(s3.spec_mem()[p] == s2.spec_mem()[p]);
                        assert(s2.spec_mem()[p] == s1.spec_mem()[p]);
                        assert(s1.spec_mem()[p] == s0.spec_mem()[p]);
                    } else if p < n + 6 {
                        assert(self.spec_mem()[p] == spec_unit_at(self.spec_mem(), n)[p - n]);
                    } else {
                        assert(self.spec_mem()[p] == spec_unit_at(self.spec_mem(), n + 6)[p - (n
                            + 6)]);
                    }
                }
                assert(self.spec_mem() =~= s0.spec_mem() + p1 + p2);
            }
        }
        Ok(())
    }
    /// Emits an indirect jump to `sym`: loads the target address into the
    /// reserved scratch register (the two-instruction load-symbol sequence)
    /// and jumps through that register. Indirect control transfer always goes
    /// through this one reserved register.
    pub fn gen_jump(&mut self, sym: Sym) -> (r: Result<(), DynAsmError>)
        requires
            old(self).wf(),
            old(self).spec_base() + old(self).spec_mem().len() + 18 <= u32::MAX,
        ensures
            final(self).wf(),
            final(self).spec_base() == old(self).spec_base(),
            final(self).spec_sym_count() == old(self).spec_sym_count(),
            match r {
                Err(DynAsmError::InvalidSym) => sym.spec_id() >= old(self).spec_sym_count()
                    && final(self).spec_mem() == old(self).spec_mem() + spec_encoding(
                    spec_load_sym_low(Register::Index(4)),
                ) && Self::spec_syms_eq(old(self), final(self)),
                Ok(()) => sym.spec_id() < old(self).spec_sym_count() && {
                    let n = old(self).spec_mem().len();
                    if !old(self).spec_sym_resolved(sym.spec_id()) {
                        &&& final(self).spec_mem() == old(self).spec_mem() + spec_encoding(
                            spec_load_sym_low(Register::Index(4)),
                        ) + spec_encoding(spec_load_sym_high(Register::Index(4))) + spec_encoding(
                            spec_xj(Register::Index(4)),
                        )
                        &&& !final(self).spec_sym_resolved(sym.spec_id())
                        &&& final(self).spec_sym_refs(sym.spec_id()) == old(self).spec_sym_refs(
                            sym.spec_id(),
                        ).push(SymRef { kind: SymRefKind::LowImm, offset: n as u32 }).push(
                            SymRef { kind: SymRefKind::HighImm, offset: (n + 6) as u32 },
                        )
                        &&& forall|i: int|
                            0 <= i < old(self).spec_sym_count() && i != sym.spec_id()
                                ==> #[trigger] Self::spec_sym_state_eq(old(self), final(self), i)
                    } else {
                        let a = old(self).spec_sym_value(sym.spec_id());
                        &&& final(self).spec_mem() == old(self).spec_mem() + spec_patched_unit(
                            spec_encoding(spec_load_sym_low(Register::Index(4))),
                            SymRefKind::LowImm,
                            a,
                        ) + spec_patched_unit(
                            spec_encoding(spec_load_sym_high(Register::Index(4))),
                            SymRefKind::HighImm,
                            a,
                        ) + spec_encoding(spec_xj(Register::Index(4)))
                        &&& Self::spec_syms_eq(old(self), final(self))
                        &&& final(self).spec_sym_refs(sym.spec_id()) == Seq::<SymRef>::empty()
                    }
                },
                _ => false,
            },
    {
        let ghost s0 = *old(self);
        let r4a = Register::Name("R4".to_owned());
        let ghost d = r4a;
        proof {
            assert(spec_reg_bits(d) == Some(4u32));
            assert(spec_word(spec_load_sym_low(d)) == spec_word(
                spec_load_sym_low(Register::Index(4)),
            ));
            assert(spec_encoding(spec_load_sym_low(d)) == spec_encoding(
                spec_load_sym_low(Register::Index(4)),
            ));
            assert(spec_word(spec_load_sym_high(d)) == spec_word(
                spec_load_sym_high(Register::Index(4)),
            ));
            assert(spec_encoding(spec_load_sym_high(d)) == spec_encoding(
                spec_load_sym_high(Register::Index(4)),
            ));
        }
        match self.gen_load_symbol(r4a, sym) {
            Ok(()) => {},
            Err(e) => {
                return Err(e);
            },
        }
        let ghost s1 = *self;
        proof {
            crate::ais::lemma_encoding_len(spec_load_sym_low(d));
            crate::ais::lemma_encoding_len(spec_load_sym_high(d));
            crate::ais::lemma_itype_encoding_is_itype_unit(spec_load_sym_low(d));
            crate::ais::lemma_itype_encoding_is_itype_unit(spec_load_sym_high(d));
            if s0.spec_sym_resolved(sym.spec_id()) {
                let a = s0.spec_sym_value(sym.spec_id());
                lemma_patched_unit_decodes(spec_encoding(spec_load_sym_low(d)), SymRefKind::LowImm, a);
                lemma_patched_unit_decodes(
                    spec_encoding(spec_load_sym_high(d)),
                    SymRefKind::HighImm,
                    a,
                );
            }
        }
        let r4b = Register::Name("R4".to_owned());
        proof {
            assert(spec_reg_bits(r4b) == Some(4u32));
            assert(spec_word(spec_xj(r4b)) == spec_word(spec_xj(Register::Index(4))));
            assert(spec_encoding(spec_xj(r4b)) == spec_encoding(spec_xj(Register::Index(4))));
        }
        let r2 = self.gen(Instruction::xj(r4b));
        match r2 {
            Ok(()) => {},
            Err(_) => {
                return vstd::pervasive::unreached();
            },
        }
        proof {
            let id = sym.spec_id();
            assert(Self::spec_sym_state_eq(&s1, self, id));
            if !s0.spec_sym_resolved(id) {
                assert forall|i: int| 0 <= i < s0.spec_sym_count() && i != id implies
                    #[trigger] Self::spec_sym_state_eq(&s0, self, i) by {
                    assert(Self::spec_sym_state_eq(&s0, &s1, i));
                    assert(Self::spec_sym_state_eq(&s1, self, i));
                }
            } else {
                lemma_syms_eq_trans(&s0, &s1, self);
                assert(Self::spec_sym_state_eq(&s0, self, id));
                self.lemma_resolved_sym_has_no_refs(id);
            }
        }
        Ok(())
    }
}

/// Writes one byte of the buffer in place.
fn self_set(mem: &mut Vec<u8>, i: usize, b: u8)
    requires
        i < old(mem)@.len(),
    ensures
        final(mem)@ == old(mem)@.update(i as int, b),
{
    mem.set(i, b);
}

} // verus!
