//! Capability-based security: permission tokens held per process, and the
//! circular audit log that records denied permission checks.

use vstd::prelude::*;

verus! {

/// Size in bytes of a token's signature block.
pub const TOKEN_SIZE: usize = 32;

/// Maximum number of tokens one process may hold.
pub const TOKENS_PER_PROCESS: usize = 64;

/// Number of process slots in the token table.
pub const MAX_PROCESSES: usize = 1024;

/// Discrete permissions; each occupies one bit of a token's 64-bit bitmap.
#[derive(Clone, Copy, PartialEq, Eq, Structural, Debug)]
pub enum Permission {
    Read,
    Write,
    Execute,
    IpcSend,
    IpcRecv,
    FileCreate,
    FileDelete,
    NetworkAccess,
    GpuAccess,
}

/// Bit position of a permission inside a 64-bit permission bitmap.
pub open spec fn permission_index(p: Permission) -> u64 {
    match p {
        Permission::Read => 0,
        Permission::Write => 1,
        Permission::Execute => 2,
        Permission::IpcSend => 3,
        Permission::IpcRecv => 4,
        Permission::FileCreate => 5,
        Permission::FileDelete => 6,
        Permission::NetworkAccess => 7,
        Permission::GpuAccess => 8,
    }
}

/// Executable counterpart of [`permission_index`].
pub fn permission_bit(p: Permission) -> (i: u64)
    ensures
        i == permission_index(p),
{
    match p {
        Permission::Read => 0,
        Permission::Write => 1,
        Permission::Execute => 2,
        Permission::IpcSend => 3,
        Permission::IpcRecv => 4,
        Permission::FileCreate => 5,
        Permission::FileDelete => 6,
        Permission::NetworkAccess => 7,
        Permission::GpuAccess => 8,
    }
}

/// True when `bitmap` carries permission `p`.
pub open spec fn bitmap_grants(bitmap: u64, p: Permission) -> bool {
    bitmap & (1u64 << permission_index(p)) != 0
}

/// A bitmap with every permission bit set grants every permission.
pub proof fn lemma_full_bitmap_grants_all(p: Permission)
    ensures
        bitmap_grants(u64::MAX, p),
{
    let i = permission_index(p);
    assert(i <= 8);
    assert(u64::MAX & (1u64 << i) != 0) by (bit_vector)
        requires
            i <= 8,
    ;
}

/// Capability errors.
#[derive(Clone, Copy, PartialEq, Eq, Structural, Debug)]
pub enum CapabilityError {
    PermissionDenied,
    InvalidToken,
    TokenExpired,
    StorageFull,
    NoTokenStorage,
}

/// Unforgeable record granting a set of permissions to one process.
///
/// The signature block is reserved for a cryptographic verifier and is not
/// checked by this core; `expires_at` is stored but expiry is likewise not
/// enforced here (a monotonic time source is an external collaborator).
#[derive(Clone, Debug)]
pub struct CapabilityToken {
    /// Cryptographic signature (reserved, zero-filled at creation).
    pub signature: Vec<u8>,
    /// Permission bitmap, one bit per [`Permission`] variant.
    pub permissions: u64,
    /// Owning process; never changes after creation.
    pub process_id: u32,
    /// Expiration timestamp.
    pub expires_at: u64,
}

/// The token produced by granting `permissions` to `process_id`.
pub open spec fn is_fresh_token(t: CapabilityToken, process_id: u32, permissions: u64) -> bool {
    &&& t.signature@ == Seq::new(TOKEN_SIZE as nat, |i: int| 0u8)
    &&& t.permissions == permissions
    &&& t.process_id == process_id
    &&& t.expires_at == u64::MAX
}

impl CapabilityToken {
    /// Create a new token for `process_id` carrying exactly `permissions`.
    pub fn new(process_id: u32, permissions: u64) -> (t: Self)
        ensures
            is_fresh_token(t, process_id, permissions),
    {
        let signature: Vec<u8> = vec![0u8; TOKEN_SIZE];
        proof {
            assert(signature@ =~= Seq::new(TOKEN_SIZE as nat, |i: int| 0u8));
        }
        Self { signature, permissions, process_id, expires_at: u64::MAX }
    }

    /// Check whether this token carries a specific permission.
    pub fn has_permission(&self, permission: Permission) -> (b: bool)
        ensures
            b == bitmap_grants(self.permissions, permission),
    {
        (self.permissions & (1u64 << permission_bit(permission))) != 0
    }
}

/// Bounded per-process token storage: a fixed array of optional slots.
pub struct ProcessTokenStorage {
    tokens: Vec<Option<CapabilityToken>>,
}

impl ProcessTokenStorage {
    /// The storage's slots, each empty or holding exactly one token.
    pub closed spec fn token_slots(self) -> Seq<Option<CapabilityToken>> {
        self.tokens@
    }

    /// Structural invariant: the slot array has its full fixed size.
    pub open spec fn wf(self) -> bool {
        self.token_slots().len() == TOKENS_PER_PROCESS
    }

    /// True when some held token carries permission `p`: a process's rights
    /// are the union of the bitmaps of all tokens it holds.
    pub open spec fn grants(self, p: Permission) -> bool {
        exists|i: int|
            0 <= i < self.token_slots().len() && (#[trigger] self.token_slots()[i]) is Some
                && bitmap_grants(self.token_slots()[i]->Some_0.permissions, p)
    }

    /// Create an empty storage.
    pub fn new() -> (s: Self)
        ensures
            s.wf(),
            forall|i: int| 0 <= i < TOKENS_PER_PROCESS ==> (#[trigger] s.token_slots()[i]) is None,
    {
        let mut tokens: Vec<Option<CapabilityToken>> = Vec::new();
        let mut i: usize = 0;
        while i < TOKENS_PER_PROCESS
            invariant
                i <= TOKENS_PER_PROCESS,
                tokens@.len() == i,
                forall|j: int| 0 <= j < i ==> (#[trigger] tokens@[j]) is None,
            decreases TOKENS_PER_PROCESS - i,
        {
            tokens.push(None);
            i = i + 1;
        }
        Self { tokens }
    }

    /// Insert `token` into the first empty slot, failing with `StorageFull`
    /// (and leaving the storage unchanged) when every slot is taken.
    pub fn add_token(&mut self, token: CapabilityToken) -> (r: Result<(), CapabilityError>)
        requires
            old(self).wf(),
        ensures
            final(self).wf(),
            match r {
                Ok(()) => exists|i: int|
                    0 <= i < TOKENS_PER_PROCESS && (#[trigger] old(self).token_slots()[i]) is None
                        && (forall|j: int| 0 <= j < i ==> (#[trigger] old(self).token_slots()[j]) is Some)
                        && final(self).token_slots() == old(self).token_slots().update(i, Some(token)),
                Err(e) => {
                    &&& e == CapabilityError::StorageFull
                    &&& forall|i: int|
                        0 <= i < TOKENS_PER_PROCESS ==> (#[trigger] old(self).token_slots()[i]) is Some
                    &&& *final(self) == *old(self)
                },
            },
    {
        match self.add_token_indexed(token) {
            Ok(_) => Ok(()),
            Err(e) => Err(e),
        }
    }

    /// As [`Self::add_token`], but report the slot index used on success.
    pub fn add_token_indexed(&mut self, token: CapabilityToken) -> (r: Result<
        usize,
        CapabilityError,
    >)
        requires
            old(self).wf(),
        ensures
            final(self).wf(),
            match r {
                Ok(i) => {
                    &&& 0 <= i < TOKENS_PER_PROCESS
                    &&& old(self).token_slots()[i as int] is None
                    &&& forall|j: int| 0 <= j < i ==> (#[trigger] old(self).token_slots()[j]) is Some
                    &&& final(self).token_slots() == old(self).token_slots().update(
                        i as int,
                        Some(token),
                    )
                },
                Err(e) => {
                    &&& e == CapabilityError::StorageFull
                    &&& forall|i: int|
                        0 <= i < TOKENS_PER_PROCESS ==> (#[trigger] old(self).token_slots()[i]) is Some
                    &&& *final(self) == *old(self)
                },
            },
    {
        let mut i: usize = 0;
        while i < TOKENS_PER_PROCESS
            invariant
                old(self).wf(),
                *self == *old(self),
                i <= TOKENS_PER_PROCESS,
                forall|j: int| 0 <= j < i ==> (#[trigger] self.token_slots()[j]) is Some,
            decreases TOKENS_PER_PROCESS - i,
        {
            if self.tokens[i].is_none() {
                self.tokens[i] = Some(token);
                return Ok(i);
            }
            i = i + 1;
        }
        Err(CapabilityError::StorageFull)
    }

    /// Read the token in slot `index`, if the slot is taken.
    pub fn get_token(&self, index: usize) -> (r: Option<&CapabilityToken>)
        requires
            self.wf(),
        ensures
            match r {
                Some(t) => index < TOKENS_PER_PROCESS && self.token_slots()[index as int] == Some(*t),
                None => index >= TOKENS_PER_PROCESS || self.token_slots()[index as int] is None,
            },
    {
        if index < TOKENS_PER_PROCESS {
            self.tokens[index].as_ref()
        } else {
            None
        }
    }

    /// Scan the held tokens for permission `p`.
    pub fn grants_permission(&self, p: Permission) -> (b: bool)
        requires
            self.wf(),
        ensures
            b == self.grants(p),
    {
        let mut i: usize = 0;
        while i < TOKENS_PER_PROCESS
            invariant
                self.wf(),
                i <= TOKENS_PER_PROCESS,
                forall|j: int|
                    0 <= j < i ==> !((#[trigger] self.token_slots()[j]) is Some
                        && bitmap_grants(self.token_slots()[j]->Some_0.permissions, p)),
            decreases TOKENS_PER_PROCESS - i,
        {
            match self.tokens[i].as_ref() {
                Some(t) => {
                    if t.has_permission(p) {
                        return true;
                    }
                },
                None => {},
            }
            i = i + 1;
        }
        false
    }
}

/// Number of entries in the circular audit log.
pub const AUDIT_LOG_SIZE: usize = 4096;

/// Size in bytes of an audit entry's signature field.
pub const AUDIT_SIGNATURE_SIZE: usize = 16;

/// Result code recorded in the audit log for a denied permission check.
pub const AUDIT_RESULT_DENIED: u32 = 1;

/// Result code recorded when the checked process has no token storage.
pub const AUDIT_RESULT_NO_STORAGE: u32 = 2;

/// Best-effort record of one security-relevant decision.
#[derive(Clone, Debug)]
pub struct AuditEntry {
    pub timestamp: u64,
    pub process_id: u32,
    /// Action code; for permission checks this is the permission's bit index.
    pub action: u32,
    pub result: u32,
    /// Short signature field (reserved, zero-filled by this core).
    pub signature: Vec<u8>,
}

impl AuditEntry {
    /// Build an entry with a zero-filled signature field.
    pub fn new(timestamp: u64, process_id: u32, action: u32, result: u32) -> (e: Self)
        ensures
            e.timestamp == timestamp,
            e.process_id == process_id,
            e.action == action,
            e.result == result,
            e.signature@ == Seq::new(AUDIT_SIGNATURE_SIZE as nat, |i: int| 0u8),
    {
        let signature: Vec<u8> = vec![0u8; AUDIT_SIGNATURE_SIZE];
        proof {
            assert(signature@ =~= Seq::new(AUDIT_SIGNATURE_SIZE as nat, |i: int| 0u8));
        }
        Self { timestamp, process_id, action, result, signature }
    }
}

/// Fixed-capacity circular log: the buffer never grows, and once it wraps
/// the oldest entry is silently overwritten, so the log is best-effort
/// telemetry rather than a durable audit trail.
pub struct AuditLog {
    entries: Vec<AuditEntry>,
    next: usize,
}

impl AuditLog {
    /// The log's backing buffer.
    pub closed spec fn log_entries(self) -> Seq<AuditEntry> {
        self.entries@
    }

    /// Index of the entry the next append will overwrite.
    pub closed spec fn cursor(self) -> int {
        self.next as int
    }

    /// Structural invariant.
    pub open spec fn wf(self) -> bool {
        &&& self.log_entries().len() == AUDIT_LOG_SIZE
        &&& 0 <= self.cursor() < AUDIT_LOG_SIZE
    }

    /// Create a log of zeroed entries.
    pub fn new() -> (l: Self)
        ensures
            l.wf(),
            l.cursor() == 0,
            forall|i: int|
                0 <= i < AUDIT_LOG_SIZE ==> (#[trigger] l.log_entries()[i]).process_id == 0
                    && l.log_entries()[i].timestamp == 0 && l.log_entries()[i].action == 0
                    && l.log_entries()[i].result == 0,
    {
        let mut entries: Vec<AuditEntry> = Vec::new();
        let mut i: usize = 0;
        while i < AUDIT_LOG_SIZE
            invariant
                i <= AUDIT_LOG_SIZE,
                entries@.len() == i,
                forall|j: int|
                    0 <= j < i ==> (#[trigger] entries@[j]).process_id == 0
                        && entries@[j].timestamp == 0 && entries@[j].action == 0
                        && entries@[j].result == 0,
            decreases AUDIT_LOG_SIZE - i,
        {
            entries.push(AuditEntry::new(0, 0, 0, 0));
            i = i + 1;
        }
        Self { entries, next: 0 }
    }

    /// Append `entry` at the cursor, overwriting whatever is there, and
    /// advance the cursor one position around the ring.
    pub fn append(&mut self, entry: AuditEntry)
        requires
            old(self).wf(),
        ensures
            final(self).wf(),
            final(self).log_entries() == old(self).log_entries().update(old(self).cursor(), entry),
            final(self).cursor() == (old(self).cursor() + 1) % (AUDIT_LOG_SIZE as int),
    {
        let at = self.next;
        self.entries[at] = entry;
        self.next = (at + 1) % AUDIT_LOG_SIZE;
    }

    /// Read the entry at `index`.
    pub fn entry_at(&self, index: usize) -> (e: &AuditEntry)
        requires
            self.wf(),
            index < AUDIT_LOG_SIZE,
        ensures
            *e == self.log_entries()[index as int],
    {
        &self.entries[index]
    }

    /// The index the next append will write; the most recent entry, if any
    /// has been written, sits one position behind it.
    pub fn write_position(&self) -> (p: usize)
        ensures
            p == self.cursor(),
    {
        self.next
    }
}

/// Law: adding one token changes a storage's rights by exactly the union
/// with the new token's bitmap; every permission granted before stays
/// granted, and the added bitmap's permissions become granted.
pub proof fn lemma_grants_accumulate(
    before: ProcessTokenStorage,
    after: ProcessTokenStorage,
    slot: int,
    token: CapabilityToken,
)
    requires
        before.wf(),
        0 <= slot < TOKENS_PER_PROCESS,
        before.token_slots()[slot] is None,
        after.token_slots() == before.token_slots().update(slot, Some(token)),
    ensures
        forall|p: Permission|
            #[trigger] after.grants(p) <==> (before.grants(p) || bitmap_grants(token.permissions, p)),
{
    assert forall|p: Permission|
        #[trigger] after.grants(p) <==> (before.grants(p) || bitmap_grants(
            token.permissions,
            p,
        )) by {
        if after.grants(p) {
            let i = choose|i: int|
                0 <= i < after.token_slots().len() && (#[trigger] after.token_slots()[i]) is Some
                    && bitmap_grants(after.token_slots()[i]->Some_0.permissions, p);
            if i != slot {
                assert(before.token_slots()[i] == after.token_slots()[i]);
            }
        }
        if before.grants(p) {
            let i = choose|i: int|
                0 <= i < before.token_slots().len() && (#[trigger] before.token_slots()[i]) is Some
                    && bitmap_grants(before.token_slots()[i]->Some_0.permissions, p);
            assert(i != slot);
            assert(after.token_slots()[i] == before.token_slots()[i]);
        }
        if bitmap_grants(token.permissions, p) {
            assert(after.token_slots()[slot] is Some);
        }
    }
}

/// Handle returned by a successful grant, naming the owning process and the
/// storage slot that received the token.
#[derive(Clone, Copy, PartialEq, Eq, Structural, Debug)]
pub struct TokenHandle {
    pub process_id: u32,
    pub slot: usize,
}

/// The process-indexed token table together with the shared audit log: the
/// capability side of the kernel, owned as one value.
pub struct CapabilityRegistry {
    stores: Vec<Option<ProcessTokenStorage>>,
    audit: AuditLog,
}

impl CapabilityRegistry {
    /// The per-process store slots, indexed by process id.
    pub closed spec fn store_slots(self) -> Seq<Option<ProcessTokenStorage>> {
        self.stores@
    }

    /// The shared audit log; denied checks append to it.
    pub closed spec fn audit_state(self) -> AuditLog {
        self.audit
    }

    /// Read access to the audit log.
    pub fn audit(&self) -> (l: &AuditLog)
        ensures
            *l == self.audit_state(),
    {
        &self.audit
    }

    /// Structural invariant.
    pub open spec fn wf(self) -> bool {
        &&& self.store_slots().len() == MAX_PROCESSES
        &&& forall|i: int|
            0 <= i < MAX_PROCESSES && (#[trigger] self.store_slots()[i]) is Some
                ==> self.store_slots()[i]->Some_0.wf()
        &&& self.audit_state().wf()
    }

    /// True when `process_id` has a token store at all.
    pub open spec fn has_store(self, process_id: u32) -> bool {
        process_id < MAX_PROCESSES && self.store_slots()[process_id as int] is Some
    }

    /// True when `process_id` holds at least one token carrying `p`.
    pub open spec fn process_grants(self, process_id: u32, p: Permission) -> bool {
        self.has_store(process_id) && self.store_slots()[process_id as int]->Some_0.grants(p)
    }

    /// The token slots currently held by `process_id`, an all-empty storage
    /// counting as the state of a process with no store yet.
    pub open spec fn prior_slots(self, process_id: u32) -> Seq<Option<CapabilityToken>> {
        if self.has_store(process_id) {
            self.store_slots()[process_id as int]->Some_0.token_slots()
        } else {
            Seq::new(TOKENS_PER_PROCESS as nat, |i: int| None)
        }
    }

    /// Boot-time initialization: an empty table except that the root
    /// process (id 0) receives a token carrying every permission.
    pub fn init() -> (r: Self)
        ensures
            r.wf(),
            r.has_store(0),
            forall|p: Permission| #[trigger] r.process_grants(0, p),
            forall|pid: u32| 0 < pid < MAX_PROCESSES ==> !(#[trigger] r.has_store(pid)),
            r.audit_state().cursor() == 0,
    {
        let mut stores: Vec<Option<ProcessTokenStorage>> = Vec::new();
        let mut i: usize = 0;
        while i < MAX_PROCESSES
            invariant
                i <= MAX_PROCESSES,
                stores@.len() == i,
                forall|j: int| 0 <= j < i ==> (#[trigger] stores@[j]) is None,
            decreases MAX_PROCESSES - i,
        {
            stores.push(None);
            i = i + 1;
        }
        let mut root_store = ProcessTokenStorage::new();
        let ghost empty_store = root_store;
        let root_token = CapabilityToken::new(0, u64::MAX);
        let added = root_store.add_token(root_token);
        proof {
            assert(empty_store.token_slots()[0] is None);
            assert(added is Ok);
            let i = choose|i: int|
                0 <= i < TOKENS_PER_PROCESS && (#[trigger] empty_store.token_slots()[i]) is None
                    && (forall|j: int|
                    0 <= j < i ==> (#[trigger] empty_store.token_slots()[j]) is Some)
                    && root_store.token_slots() == empty_store.token_slots().update(
                    i,
                    Some(root_token),
                );
            lemma_grants_accumulate(empty_store, root_store, i, root_token);
            assert forall|p: Permission| #[trigger] root_store.grants(p) by {
                lemma_full_bitmap_grants_all(p);
            }
        }
        stores[0] = Some(root_store);
        Self { stores, audit: AuditLog::new() }
    }

    /// Create a token carrying exactly `permissions` and insert it into the
    /// process's store, creating the store on first use; fails with
    /// `StorageFull` when the process already holds the maximum number of
    /// tokens, and with `NoTokenStorage` when no store can exist for the
    /// process id at all (it is beyond the table).
    pub fn grant(&mut self, process_id: u32, permissions: u64) -> (r: Result<
        TokenHandle,
        CapabilityError,
    >)
        requires
            old(self).wf(),
        ensures
            final(self).wf(),
            final(self).audit_state() == old(self).audit_state(),
            match r {
                Ok(h) => {
                    &&& process_id < MAX_PROCESSES
                    &&& h.process_id == process_id
                    &&& h.slot < TOKENS_PER_PROCESS
                    &&& old(self).prior_slots(process_id)[h.slot as int] is None
                    &&& forall|j: int|
                        0 <= j < h.slot ==> (#[trigger] old(self).prior_slots(process_id)[j]) is Some
                    &&& final(self).has_store(process_id)
                    &&& exists|t: CapabilityToken|
                        is_fresh_token(t, process_id, permissions)
                            && final(self).store_slots()[process_id as int]->Some_0.token_slots()
                            == old(self).prior_slots(process_id).update(h.slot as int, Some(t))
                    &&& forall|q: u32|
                        q < MAX_PROCESSES && q != process_id
                            ==> #[trigger] final(self).store_slots()[q as int]
                            == old(self).store_slots()[q as int]
                    &&& forall|p: Permission|
                        #[trigger] final(self).process_grants(process_id, p)
                            <==> (old(self).process_grants(process_id, p)
                            || bitmap_grants(permissions, p))
                },
                Err(CapabilityError::NoTokenStorage) => {
                    &&& process_id >= MAX_PROCESSES
                    &&& *final(self) == *old(self)
                },
                Err(CapabilityError::StorageFull) => {
                    &&& process_id < MAX_PROCESSES
                    &&& forall|i: int|
                        0 <= i < TOKENS_PER_PROCESS ==> (#[trigger] old(self).prior_slots(
                            process_id,
                        )[i]) is Some
                    &&& final(self).store_slots() == old(self).store_slots()
                },
                Err(_) => false,
            },
    {
        if process_id as usize >= MAX_PROCESSES {
            return Err(CapabilityError::NoTokenStorage);
        }
        let pid = process_id as usize;
        if self.stores[pid].is_none() {
            let fresh = ProcessTokenStorage::new();
            self.stores[pid] = Some(fresh);
            proof {
                assert(self.prior_slots(process_id) =~= old(self).prior_slots(process_id));
            }
        }
        let token = CapabilityToken::new(process_id, permissions);
        let ghost pre = *self;
        proof {
            assert(pre.prior_slots(process_id) =~= old(self).prior_slots(process_id));
        }
        let r = match &mut self.stores[pid] {
            Some(store) => store.add_token_indexed(token),
            None => Err(CapabilityError::StorageFull),
        };
        match r {
            Ok(slot) => {
                proof {
                    let before = pre.store_slots()[pid as int]->Some_0;
                    let after = self.store_slots()[pid as int]->Some_0;
                    assert(self.store_slots() == pre.store_slots().update(pid as int, Some(after)));
                    lemma_grants_accumulate(before, after, slot as int, token);
                    assert(is_fresh_token(token, process_id, permissions));
                    assert forall|q: u32|
                        q < MAX_PROCESSES && q != process_id implies #[trigger] self.store_slots()[q as int]
                            == old(self).store_slots()[q as int] by {
                        assert(self.store_slots()[q as int] == pre.store_slots()[q as int]);
                    }
                }
                Ok(TokenHandle { process_id, slot })
            },
            Err(e) => {
                proof {
                    // A freshly created store has a free slot, so a full
                    // store must have existed before the call.
                    let st = pre.store_slots()[pid as int]->Some_0;
                    assert(st.token_slots()[0] is Some);
                    assert(self.store_slots() =~= old(self).store_slots());
                }
                Err(e)
            },
        }
    }

    /// Check whether `process_id` holds permission `permission`; `now` is
    /// the caller-supplied timestamp for the audit trail.  Returns
    /// `Ok(true)` exactly when some held token carries the permission,
    /// `NoTokenStorage` when the process has no store at all, and
    /// `PermissionDenied` when a store exists but no token grants the
    /// permission.  Every denied check appends an audit entry naming the
    /// process and the checked permission; a successful check leaves the
    /// log untouched.
    pub fn check(&mut self, process_id: u32, permission: Permission, now: u64) -> (r: Result<
        bool,
        CapabilityError,
    >)
        requires
            old(self).wf(),
        ensures
            final(self).wf(),
            final(self).store_slots() == old(self).store_slots(),
            old(self).process_grants(process_id, permission) ==> r == Ok::<
                bool,
                CapabilityError,
            >(true) && final(self).audit_state() == old(self).audit_state(),
            !old(self).process_grants(process_id, permission) ==> {
                &&& r == Err::<bool, CapabilityError>(
                    if old(self).has_store(process_id) {
                        CapabilityError::PermissionDenied
                    } else {
                        CapabilityError::NoTokenStorage
                    },
                )
                &&& denial_logged(
                    old(self).audit_state(),
                    final(self).audit_state(),
                    now,
                    process_id,
                    permission,
                    if old(self).has_store(process_id) {
                        AUDIT_RESULT_DENIED
                    } else {
                        AUDIT_RESULT_NO_STORAGE
                    },
                )
            },
    {
        let action = permission_bit(permission) as u32;
        if process_id as usize >= MAX_PROCESSES {
            let entry = AuditEntry::new(now, process_id, action, AUDIT_RESULT_NO_STORAGE);
            self.audit.append(entry);
            return Err(CapabilityError::NoTokenStorage);
        }
        let pid = process_id as usize;
        let granted: Option<bool> = match &self.stores[pid] {
            Some(store) => Some(store.grants_permission(permission)),
            None => None,
        };
        match granted {
            Some(true) => Ok(true),
            Some(false) => {
                let entry = AuditEntry::new(now, process_id, action, AUDIT_RESULT_DENIED);
                self.audit.append(entry);
                Err(CapabilityError::PermissionDenied)
            },
            None => {
                let entry = AuditEntry::new(now, process_id, action, AUDIT_RESULT_NO_STORAGE);
                self.audit.append(entry);
                Err(CapabilityError::NoTokenStorage)
            },
        }
    }

    /// Gate for the channel layer: does `process_id` hold `IpcSend`?
    ///
    /// Permissions in this core are global per process, so the channel
    /// identifier is accepted for interface compatibility but deliberately
    /// not consulted; per-channel access control is an extension point.
    pub fn check_ipc_permission(&mut self, process_id: u32, channel_id: u64, now: u64) -> (r:
        Result<(), CapabilityError>)
        requires
            old(self).wf(),
        ensures
            final(self).wf(),
            final(self).store_slots() == old(self).store_slots(),
            old(self).process_grants(process_id, Permission::IpcSend) ==> r == Ok::<
                (),
                CapabilityError,
            >(()) && final(self).audit_state() == old(self).audit_state(),
            !old(self).process_grants(process_id, Permission::IpcSend) ==> {
                &&& r == Err::<(), CapabilityError>(
                    if old(self).has_store(process_id) {
                        CapabilityError::PermissionDenied
                    } else {
                        CapabilityError::NoTokenStorage
                    },
                )
                &&& denial_logged(
                    old(self).audit_state(),
                    final(self).audit_state(),
                    now,
                    process_id,
                    Permission::IpcSend,
                    if old(self).has_store(process_id) {
                        AUDIT_RESULT_DENIED
                    } else {
                        AUDIT_RESULT_NO_STORAGE
                    },
                )
            },
    {
        match self.check(process_id, Permission::IpcSend, now) {
            Ok(_) => Ok(()),
            Err(e) => Err(e),
        }
    }

    /// Append an entry to the shared audit log.
    pub fn audit_log(&mut self, entry: AuditEntry)
        requires
            old(self).wf(),
        ensures
            final(self).wf(),
            final(self).store_slots() == old(self).store_slots(),
            final(self).audit_state().log_entries() == old(self).audit_state().log_entries().update(
                old(self).audit_state().cursor(),
                entry,
            ),
            final(self).audit_state().cursor() == (old(self).audit_state().cursor() + 1) % (
            AUDIT_LOG_SIZE as int),
    {
        self.audit.append(entry);
    }
}

/// The denial record a failed check leaves behind: one entry, carrying the
/// denied process id, the permission's bit index as its action code and
/// `result` as its result code, written at the log cursor.
pub open spec fn denial_logged(
    before: AuditLog,
    after: AuditLog,
    now: u64,
    process_id: u32,
    p: Permission,
    result: u32,
) -> bool {
    &&& exists|e: AuditEntry|
        (#[trigger] e.timestamp) == now && e.process_id == process_id && e.action
            == permission_index(p) as u32 && e.result == result && after.log_entries()
            == before.log_entries().update(before.cursor(), e)
    &&& after.cursor() == (before.cursor() + 1) % (AUDIT_LOG_SIZE as int)
}

} // verus!
