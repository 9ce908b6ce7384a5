use vstd::prelude::*;

verus! {

/// A peer's network endpoint, an IPv4 address and a port, held as plain
/// numbers so that contracts can compare them.
#[derive(Clone, Copy, PartialEq, Eq, Structural, Debug, Hash)]
pub struct Address {
    pub ip: u32,
    pub port: u16,
}

/// One registry row: a device instance and the address it was last seen at.
#[derive(Clone, Copy, PartialEq, Eq, Structural, Debug)]
pub struct RegistryEntry {
    pub instance: u32,
    pub address: Address,
}

/// Whether some row carries the instance.
pub open spec fn has_instance(s: Seq<RegistryEntry>, instance: u32) -> bool {
    exists|i: int| 0 <= i < s.len() && s[i].instance == instance
}

/// The row index carrying the instance; meaningful when the instance is
/// present and the rows are duplicate-free.
pub open spec fn instance_index(s: Seq<RegistryEntry>, instance: u32) -> int {
    choose|i: int| 0 <= i < s.len() && s[i].instance == instance
}

/// Rows keyed by distinct instances.
pub open spec fn unique_instances(s: Seq<RegistryEntry>) -> bool {
    forall|i: int, j: int|
        0 <= i < j < s.len() ==> s[i].instance != s[j].instance
}

/// What an upsert leaves behind: the row of the instance overwritten in
/// place, or a fresh row appended.
pub open spec fn upsert_seq(s: Seq<RegistryEntry>, instance: u32, address: Address) -> Seq<
    RegistryEntry,
> {
    if has_instance(s, instance) {
        s.update(instance_index(s, instance), RegistryEntry { instance, address })
    } else {
        s.push(RegistryEntry { instance, address })
    }
}

/// On duplicate-free rows the index of an instance is the only one carrying
/// it.
pub proof fn lemma_instance_index(s: Seq<RegistryEntry>, instance: u32)
    requires
        unique_instances(s),
        has_instance(s, instance),
    ensures
        0 <= instance_index(s, instance) < s.len(),
        s[instance_index(s, instance)].instance == instance,
        forall|k: int| 0 <= k < s.len() && s[k].instance == instance ==> k == instance_index(
            s,
            instance,
        ),
{
    let idx = instance_index(s, instance);
    assert(0 <= idx < s.len() && s[idx].instance == instance);
}

/// An upsert keeps the rows duplicate-free.
pub proof fn lemma_upsert_unique(s: Seq<RegistryEntry>, instance: u32, address: Address)
    requires
        unique_instances(s),
    ensures
        unique_instances(upsert_seq(s, instance, address)),
{
    if has_instance(s, instance) {
        lemma_instance_index(s, instance);
    } else {
        let t = s.push(RegistryEntry { instance, address });
        assert forall|i: int, j: int| 0 <= i < j < t.len() implies t[i].instance
            != t[j].instance by {
            if j == s.len() {
                assert(t[i] == s[i]);
                assert(!(s[i].instance == instance)) by {
                    assert(has_instance(s, instance) == false);
                }
            }
        }
    }
}

/// Writing an instance's address twice leaves what the second write alone
/// would: the registry is last-write-wins, and upserting the same pair any
/// number of times is the same as upserting it once.
pub proof fn lemma_upsert_last_write_wins(
    s: Seq<RegistryEntry>,
    instance: u32,
    first: Address,
    second: Address,
)
    requires
        unique_instances(s),
    ensures
        upsert_seq(upsert_seq(s, instance, first), instance, second) == upsert_seq(
            s,
            instance,
            second,
        ),
{
    let t = upsert_seq(s, instance, first);
    lemma_upsert_unique(s, instance, first);
    if has_instance(s, instance) {
        let idx = instance_index(s, instance);
        lemma_instance_index(s, instance);
        assert(t[idx].instance == instance);
        assert(has_instance(t, instance));
        lemma_instance_index(t, instance);
        assert(instance_index(t, instance) == idx);
        assert(upsert_seq(t, instance, second) =~= upsert_seq(s, instance, second));
    } else {
        let idx = s.len() as int;
        assert(t[idx].instance == instance);
        assert(has_instance(t, instance));
        lemma_instance_index(t, instance);
        assert(instance_index(t, instance) == idx);
        assert(upsert_seq(t, instance, second) =~= upsert_seq(s, instance, second));
    }
}

/// Upserting the same row again changes nothing.
pub proof fn lemma_upsert_idempotent(s: Seq<RegistryEntry>, instance: u32, address: Address)
    requires
        unique_instances(s),
    ensures
        upsert_seq(upsert_seq(s, instance, address), instance, address) == upsert_seq(
            s,
            instance,
            address,
        ),
{
    lemma_upsert_last_write_wins(s, instance, address, address);
}

/// The rows after the same pair has been upserted `n` times in a row.
pub open spec fn upsert_n_times(
    s: Seq<RegistryEntry>,
    instance: u32,
    address: Address,
    n: nat,
) -> Seq<RegistryEntry>
    decreases n,
{
    if n == 0 {
        s
    } else {
        upsert_seq(upsert_n_times(s, instance, address, (n - 1) as nat), instance, address)
    }
}

/// Upserting the same pair any number of times yields exactly what a single
/// upsert yields.
pub proof fn lemma_upsert_n_times(s: Seq<RegistryEntry>, instance: u32, address: Address, n: nat)
    requires
        unique_instances(s),
        n >= 1,
    ensures
        upsert_n_times(s, instance, address, n) == upsert_seq(s, instance, address),
    decreases n,
{
    if n == 1 {
        assert(upsert_n_times(s, instance, address, 0) == s);
    } else {
        lemma_upsert_n_times(s, instance, address, (n - 1) as nat);
        lemma_upsert_idempotent(s, instance, address);
    }
}

/// The first row holding the address, scanned from the front; the registry
/// cannot tell apart two instances that share one address, so the first
/// registered wins.
pub open spec fn resolve_spec(s: Seq<RegistryEntry>, address: Address) -> Option<u32>
    decreases s.len(),
{
    if s.len() == 0 {
        None
    } else if s[0].address == address {
        Some(s[0].instance)
    } else {
        resolve_spec(s.drop_first(), address)
    }
}

proof fn lemma_resolve_skip(s: Seq<RegistryEntry>, address: Address, i: int)
    requires
        0 <= i < s.len(),
        s[i].address != address,
    ensures
        resolve_spec(s.skip(i), address) == resolve_spec(s.skip(i + 1), address),
{
    assert(s.skip(i)[0] == s[i]);
    assert(s.skip(i).drop_first() =~= s.skip(i + 1));
}

/// The live device registry: every discovery response recorded, last write
/// winning, nothing ever evicted.
pub struct DeviceRegistry {
    entries: Vec<RegistryEntry>,
}

impl View for DeviceRegistry {
    type V = Seq<RegistryEntry>;

    closed spec fn view(&self) -> Seq<RegistryEntry> {
        self.entries@
    }
}

impl DeviceRegistry {
    /// Rows are keyed by distinct instances.
    pub open spec fn wf(self) -> bool {
        unique_instances(self@)
    }

    /// An empty registry.
    pub fn new() -> (r: DeviceRegistry)
        ensures
            r@ == Seq::<RegistryEntry>::empty(),
            r.wf(),
    {
        DeviceRegistry { entries: Vec::new() }
    }

    /// How many devices have been seen.
    pub fn len(&self) -> (r: usize)
        ensures
            r == self@.len(),
    {
        self.entries.len()
    }

    /// Records the address a device instance was last seen at: overwrites
    /// the instance's row when one exists, appends a row otherwise.
    pub fn upsert(&mut self, instance: u32, address: Address)
        requires
            old(self).wf(),
        ensures
            final(self).wf(),
            final(self)@ == upsert_seq(old(self)@, instance, address),
    {
        let mut i: usize = 0;
        while i < self.entries.len()
            invariant
                i <= self.entries@.len(),
                self == old(self),
                old(self).wf(),
                forall|j: int| 0 <= j < i ==> self.entries@[j].instance != instance,
            decreases self.entries@.len() - i,
        {
            if self.entries[i].instance == instance {
                proof {
                    lemma_upsert_unique(self@, instance, address);
                    lemma_instance_index(self@, instance);
                    assert(instance_index(self@, instance) == i as int);
                }
                self.entries[i] = RegistryEntry { instance, address };
                return ;
            }
            i = i + 1;
        }
        proof {
            lemma_upsert_unique(self@, instance, address);
        }
        assert(!has_instance(self@, instance));
        self.entries.push(RegistryEntry { instance, address });
    }

    /// A point-in-time copy of the rows, in registration order, for
    /// iteration outside the registry.
    pub fn snapshot(&self) -> (r: Vec<RegistryEntry>)
        ensures
            r@ == self@,
    {
        let mut r: Vec<RegistryEntry> = Vec::new();
        let mut i: usize = 0;
        while i < self.entries.len()
            invariant
                i <= self.entries@.len(),
                r@ == self.entries@.take(i as int),
            decreases self.entries@.len() - i,
        {
            r.push(self.entries[i]);
            i = i + 1;
            assert(r@ =~= self.entries@.take(i as int));
        }
        assert(self.entries@.take(i as int) =~= self.entries@);
        r
    }

    /// The instance first registered at an address, if any: the reverse
    /// lookup the acknowledgment path correlates by.
    pub fn resolve_address_to_instance(&self, address: Address) -> (r: Option<u32>)
        ensures
            r == resolve_spec(self@, address),
    {
        assert(self@.skip(0int) =~= self@);
        let mut i: usize = 0;
        while i < self.entries.len()
            invariant
                i <= self.entries@.len(),
                resolve_spec(self@, address) == resolve_spec(self@.skip(i as int), address),
            decreases self.entries@.len() - i,
        {
            if self.entries[i].ip_port_eq(address) {
                assert(self@.skip(i as int)[0] == self@[i as int]);
                return Some(self.entries[i].instance);
            }
            proof {
                lemma_resolve_skip(self@, address, i as int);
            }
            i = i + 1;
        }
        assert(self@.skip(i as int) =~= Seq::<RegistryEntry>::empty());
        None
    }
}

impl RegistryEntry {
    /// Whether this row's address equals the given one.
    fn ip_port_eq(&self, address: Address) -> (r: bool)
        ensures
            r == (self.address == address),
    {
        self.address.ip == address.ip && self.address.port == address.port
    }
}

} // verus!
