//! The registry of indexers: who may register, the registered programs, the
//! call metrics reported to it, and how its two administrators are kept
//! across upgrades.
use vstd::prelude::*;
use crate::principal::{copy_bytes, principal_of_text, principal_text, PrincipalId};

verus! {

/// An identity held in its textual form.
#[derive(Debug)]
pub struct ID {
    principal: String,
}

impl ID {
    pub closed spec fn text(&self) -> Seq<char> {
        self.principal@
    }

    pub fn new(principal: &PrincipalId) -> (r: ID)
        ensures
            r.text() == principal_text(principal@),
    {
        ID { principal: principal.to_text() }
    }

    /// The identity again; `None` when the text denotes none.
    pub fn to_principal(&self) -> (r: Option<PrincipalId>)
        ensures
            match r {
                Some(p) => principal_of_text(self.text()) == Some(p@),
                None => principal_of_text(self.text()) is None,
            },
    {
        PrincipalId::from_text(self.principal.as_str())
    }
}

/// A registered program.
#[derive(Debug)]
pub struct ChainsightCanister {
    registered_at: u64,
    last_seen_at: u64,
    created_by: ID,
}

impl ChainsightCanister {
    pub closed spec fn registered_time(&self) -> u64 {
        self.registered_at
    }

    pub closed spec fn last_seen_time(&self) -> u64 {
        self.last_seen_at
    }

    pub closed spec fn creator_text(&self) -> Seq<char> {
        self.created_by.text()
    }

    /// A program registered, and last seen, at `now`.
    pub fn new(created_by: ID, now: u64) -> (r: ChainsightCanister)
        ensures
            r.registered_time() == now,
            r.last_seen_time() == now,
            r.creator_text() == created_by.text(),
    {
        ChainsightCanister { registered_at: now, last_seen_at: now, created_by }
    }
}

/// A request to register `principal`, created by `craeted_by`.
#[derive(Debug)]
pub struct CanisterRegisterInput {
    pub principal: PrincipalId,
    pub craeted_by: PrincipalId,
}

impl CanisterRegisterInput {
    pub fn new(principal: PrincipalId, craeted_by: PrincipalId) -> (r: CanisterRegisterInput)
        ensures
            r.principal@ == principal@,
            r.craeted_by@ == craeted_by@,
    {
        CanisterRegisterInput { principal, craeted_by }
    }
}

/// The cost of one call, as reported to the registry.
#[derive(Debug)]
pub struct CallMetric {
    pub canister_id: PrincipalId,
    pub method_name: String,
    pub called_by: PrincipalId,
    pub time: u64,
    pub cycles: u64,
    pub bytes: u64,
    pub cycles_balance: u64,
}

impl CallMetric {
    /// A metric taken at `time`.
    pub fn new(
        canister_id: PrincipalId,
        method_name: String,
        called_by: PrincipalId,
        time: u64,
        cycles: u64,
        bytes: u64,
        cycles_balance: u64,
    ) -> (r: CallMetric)
        ensures
            r.canister_id@ == canister_id@,
            r.method_name@ == method_name@,
            r.called_by@ == called_by@,
            r.time == time,
            r.cycles == cycles,
            r.bytes == bytes,
            r.cycles_balance == cycles_balance,
    {
        CallMetric { canister_id, method_name, called_by, time, cycles, bytes, cycles_balance }
    }
}

#[derive(Clone, Copy, Debug, PartialEq, Eq, Structural)]
pub enum AccessError {
    /// The administrator was never set (it is still anonymous).
    PrincipalNotSet,
    /// The caller is not the administrator.
    Unauthorized,
}

/// The anonymous identity's bytes.
pub open spec fn anonymous_bytes() -> Seq<u8> {
    seq![4u8]
}

/// Admits `caller` when it is `admin`, which must have been set.
pub fn check_only(admin: &PrincipalId, caller: &PrincipalId) -> (r: Result<(), AccessError>)
    ensures
        admin@ == anonymous_bytes() ==> r == Err::<(), AccessError>(AccessError::PrincipalNotSet),
        admin@ != anonymous_bytes() && caller@ != admin@ ==> r == Err::<(), AccessError>(AccessError::Unauthorized),
        r is Ok <==> (admin@ != anonymous_bytes() && caller@ == admin@),
{
    let anonymous = PrincipalId::anonymous();
    if admin.same_as(&anonymous) {
        return Err(AccessError::PrincipalNotSet);
    }
    if !caller.same_as(admin) {
        return Err(AccessError::Unauthorized);
    }
    Ok(())
}

/// The registry's administrators and the programs registered.
#[derive(Debug)]
pub struct Registry {
    proxy: PrincipalId,
    owner: PrincipalId,
    canisters: Vec<(PrincipalId, ChainsightCanister)>,
}

impl Registry {
    pub closed spec fn proxy_id(&self) -> Seq<u8> {
        self.proxy@
    }

    pub closed spec fn owner_id(&self) -> Seq<u8> {
        self.owner@
    }

    /// The registered identities, in order of first registration.
    pub closed spec fn registered(&self) -> Seq<Seq<u8>> {
        self.canisters@.map_values(|e: (PrincipalId, ChainsightCanister)| e.0@)
    }

    pub open spec fn wf(&self) -> bool {
        self.registered().no_duplicates()
    }

    /// A registry installed by `proxy`; the owner is not set yet.
    pub fn new(proxy: PrincipalId) -> (r: Registry)
        ensures
            r.wf(),
            r.proxy_id() == proxy@,
            r.owner_id() == anonymous_bytes(),
            r.registered().len() == 0,
    {
        let r = Registry { proxy, owner: PrincipalId::anonymous(), canisters: Vec::new() };
        assert(r.registered() =~= Seq::<Seq<u8>>::empty());
        r
    }

    pub fn only_proxy(&self, caller: &PrincipalId) -> (r: Result<(), AccessError>)
        ensures
            r is Ok <==> (self.proxy_id() != anonymous_bytes() && caller@ == self.proxy_id()),
            self.proxy_id() == anonymous_bytes() ==> r == Err::<(), AccessError>(AccessError::PrincipalNotSet),
    {
        check_only(&self.proxy, caller)
    }

    pub fn only_owner(&self, caller: &PrincipalId) -> (r: Result<(), AccessError>)
        ensures
            r is Ok <==> (self.owner_id() != anonymous_bytes() && caller@ == self.owner_id()),
            self.owner_id() == anonymous_bytes() ==> r == Err::<(), AccessError>(AccessError::PrincipalNotSet),
    {
        check_only(&self.owner, caller)
    }

    /// The owner names a new proxy.
    pub fn set_proxy(&mut self, caller: &PrincipalId, principal: PrincipalId) -> (r: Result<(), AccessError>)
        ensures
            r is Ok <==> (old(self).owner_id() != anonymous_bytes() && caller@ == old(self).owner_id()),
            r is Ok ==> final(self).proxy_id() == principal@,
            r is Err ==> final(self).proxy_id() == old(self).proxy_id(),
            final(self).owner_id() == old(self).owner_id(),
            final(self).registered() == old(self).registered(),
    {
        let ok = self.only_owner(caller);
        if ok.is_err() {
            return ok;
        }
        self.proxy = principal;
        Ok(())
    }

    /// The owner names a new owner.
    pub fn set_owner(&mut self, caller: &PrincipalId, principal: PrincipalId) -> (r: Result<(), AccessError>)
        ensures
            r is Ok <==> (old(self).owner_id() != anonymous_bytes() && caller@ == old(self).owner_id()),
            r is Ok ==> final(self).owner_id() == principal@,
            r is Err ==> final(self).owner_id() == old(self).owner_id(),
            final(self).proxy_id() == old(self).proxy_id(),
            final(self).registered() == old(self).registered(),
    {
        let ok = self.only_owner(caller);
        if ok.is_err() {
            return ok;
        }
        self.owner = principal;
        Ok(())
    }

    fn position_of(&self, id: &PrincipalId) -> (r: Option<usize>)
        ensures
            match r {
                Some(i) => i < self.registered().len() && self.registered()[i as int] == id@,
                None => !self.registered().contains(id@),
            },
    {
        let mut i: usize = 0;
        while i < self.canisters.len()
            invariant
                i <= self.canisters@.len(),
                self.registered().len() == self.canisters@.len(),
                forall|j: int| 0 <= j < i ==> self.registered()[j] != id@,
            decreases self.canisters@.len() - i,
        {
            assert(self.registered()[i as int] == self.canisters@[i as int].0@);
            if self.canisters[i].0.same_as(id) {
                return Some(i);
            }
            i = i + 1;
        }
        None
    }

    /// The proxy registers a program, replacing an earlier registration.
    pub fn register(&mut self, caller: &PrincipalId, input: CanisterRegisterInput, now: u64) -> (r: Result<(), AccessError>)
        requires
            old(self).wf(),
        ensures
            final(self).wf(),
            r is Ok <==> (old(self).proxy_id() != anonymous_bytes() && caller@ == old(self).proxy_id()),
            r is Ok ==> final(self).registered().contains(input.principal@) && final(self).registered().to_set()
                == old(self).registered().to_set().insert(input.principal@),
            r is Err ==> final(self).registered() == old(self).registered(),
            final(self).proxy_id() == old(self).proxy_id(),
            final(self).owner_id() == old(self).owner_id(),
    {
        let ok = self.only_proxy(caller);
        if ok.is_err() {
            return ok;
        }
        let ghost before = self.registered();
        let canister = ChainsightCanister::new(ID::new(&input.craeted_by), now);
        match self.position_of(&input.principal) {
            Some(i) => {
                self.canisters.set(i, (input.principal, canister));
                assert(self.registered() =~= before.update(i as int, before[i as int]));
                assert(before.update(i as int, before[i as int]) =~= before);
                assert(before.to_set() =~= before.to_set().insert(before[i as int]));
            },
            None => {
                let ghost key = input.principal@;
                self.canisters.push((input.principal, canister));
                assert(self.registered() =~= before.push(key));
                assert(self.registered()[before.len() as int] == key);
                assert(self.registered().to_set() =~= before.to_set().insert(key)) by {
                    assert forall|x: Seq<u8>| self.registered().to_set().contains(x) <==> before.to_set().insert(key).contains(x) by {
                        if self.registered().contains(x) {
                            let j = choose|j: int| 0 <= j < self.registered().len() && self.registered()[j] == x;
                            if j < before.len() {
                                assert(before[j] == x);
                            }
                        }
                        if before.contains(x) {
                            let j = choose|j: int| 0 <= j < before.len() && before[j] == x;
                            assert(self.registered()[j] == x);
                        }
                    }
                }
            },
        }
        Ok(())
    }

    /// The proxy unregisters a program.
    pub fn unregister(&mut self, caller: &PrincipalId, principal: &PrincipalId) -> (r: Result<(), AccessError>)
        requires
            old(self).wf(),
        ensures
            final(self).wf(),
            r is Ok <==> (old(self).proxy_id() != anonymous_bytes() && caller@ == old(self).proxy_id()),
            r is Ok ==> final(self).registered().to_set() == old(self).registered().to_set().remove(principal@),
            r is Err ==> final(self).registered() == old(self).registered(),
            final(self).proxy_id() == old(self).proxy_id(),
            final(self).owner_id() == old(self).owner_id(),
    {
        let ok = self.only_proxy(caller);
        if ok.is_err() {
            return ok;
        }
        let ghost before = self.registered();
        match self.position_of(principal) {
            Some(i) => {
                let _ = self.canisters.remove(i);
                assert(self.registered() =~= before.remove(i as int));
                assert(self.registered().to_set() =~= before.to_set().remove(principal@)) by {
                    assert forall|x: Seq<u8>| self.registered().to_set().contains(x) <==> before.to_set().remove(principal@).contains(x) by {
                        if self.registered().contains(x) {
                            let j = choose|j: int| 0 <= j < self.registered().len() && self.registered()[j] == x;
                            if j < i {
                                assert(before[j] == x);
                            } else {
                                assert(before[j + 1] == x);
                            }
                        }
                        if before.contains(x) && x != principal@ {
                            let j = choose|j: int| 0 <= j < before.len() && before[j] == x;
                            if j < i {
                                assert(self.registered()[j] == x);
                            } else {
                                assert(j != i);
                                assert(self.registered()[j - 1] == x);
                            }
                        }
                    }
                }
            },
            None => {
                assert(before.to_set() =~= before.to_set().remove(principal@));
            },
        }
        Ok(())
    }

    /// Whether `principal` is registered.
    pub fn is_registered(&self, principal: &PrincipalId) -> (r: bool)
        ensures
            r == self.registered().contains(principal@),
    {
        self.position_of(principal).is_some()
    }
}

/// Little-endian value of four bytes.
pub open spec fn le_u32(b0: u8, b1: u8, b2: u8, b3: u8) -> nat {
    b0 as nat + 256 * b1 as nat + 65536 * b2 as nat + 16777216 * b3 as nat
}

/// A state blob as kept in durable memory: its length as four
/// little-endian bytes, then the blob.
pub open spec fn framed(data: Seq<u8>) -> Seq<u8> {
    let n = data.len() as nat;
    seq![
        (n % 256) as u8,
        (n / 256 % 256) as u8,
        (n / 65536 % 256) as u8,
        (n / 16777216 % 256) as u8,
    ] + data
}

proof fn lemma_le_u32_of(n: nat)
    requires
        n <= u32::MAX,
    ensures
        le_u32((n % 256) as u8, (n / 256 % 256) as u8, (n / 65536 % 256) as u8, (n / 16777216 % 256) as u8) == n,
{
    assert(le_u32((n % 256) as u8, (n / 256 % 256) as u8, (n / 65536 % 256) as u8, (n / 16777216 % 256) as u8) == n) by (nonlinear_arith)
        requires
            n <= 4294967295,
    {
    }
}

/// Frames a state blob for durable memory.
pub fn frame_state(data: &Vec<u8>) -> (r: Vec<u8>)
    requires
        data@.len() <= u32::MAX,
    ensures
        r@ == framed(data@),
{
    let n = data.len() as u32;
    let mut r: Vec<u8> = Vec::new();
    r.push((n % 256) as u8);
    r.push((n / 256 % 256) as u8);
    r.push((n / 65536 % 256) as u8);
    r.push((n / 16777216 % 256) as u8);
    let mut i: usize = 0;
    while i < data.len()
        invariant
            i <= data@.len(),
            n == data@.len(),
            r@ == seq![
                (n % 256) as u8,
                (n / 256 % 256) as u8,
                (n / 65536 % 256) as u8,
                (n / 16777216 % 256) as u8,
            ] + data@.subrange(0, i as int),
        decreases data@.len() - i,
    {
        r.push(data[i]);
        i = i + 1;
        assert(data@.subrange(0, i as int) =~= data@.subrange(0, i - 1).push(data@[i - 1]));
    }
    assert(data@.subrange(0, i as int) =~= data@);
    assert(r@ =~= framed(data@));
    r
}

/// Reads a state blob back from durable memory: the length in the first
/// four bytes, then that many bytes. `None` when the memory is shorter.
pub fn unframe_state(memory: &Vec<u8>) -> (r: Option<Vec<u8>>)
    ensures
        memory@.len() < 4 ==> r is None,
        memory@.len() >= 4 ==> {
            let n = le_u32(memory@[0], memory@[1], memory@[2], memory@[3]);
            &&& r is Some <==> 4 + n <= memory@.len()
            &&& r is Some ==> r->Some_0@ == memory@.subrange(4, 4 + n as int)
        },
{
    if memory.len() < 4 {
        return None;
    }
    let n: u64 = memory[0] as u64 + 256 * memory[1] as u64 + 65536 * memory[2] as u64 + 16777216
        * memory[3] as u64;
    let avail: usize = memory.len() - 4;
    if n > avail as u64 {
        return None;
    }
    let end: usize = 4 + n as usize;
    let mut r: Vec<u8> = Vec::new();
    let mut i: usize = 4;
    while i < end
        invariant
            end == 4 + n,
            4 <= i <= end <= memory@.len(),
            r@ == memory@.subrange(4, i as int),
        decreases 4 + n - i,
    {
        r.push(memory[i]);
        i = i + 1;
        assert(memory@.subrange(4, i as int) =~= memory@.subrange(4, i - 1).push(memory@[i - 1]));
    }
    Some(r)
}

/// Reading back what was framed gives the blob again.
pub proof fn lemma_frame_round_trip(data: Seq<u8>)
    requires
        data.len() <= u32::MAX,
    ensures
        ({
            let m = framed(data);
            &&& m.len() >= 4
            &&& le_u32(m[0], m[1], m[2], m[3]) == data.len()
            &&& m.subrange(4, 4 + data.len() as int) == data
        }),
{
    let m = framed(data);
    lemma_le_u32_of(data.len() as nat);
    assert(m.subrange(4, 4 + data.len() as int) =~= data);
}

} // verus!
