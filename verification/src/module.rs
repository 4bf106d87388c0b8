//! Module registry: the hooks that security modules install, kept in
//! priority order, and the functions that run them over a payload.

use crate::module_cvm_hardening::{
    blk_read_spec, blk_write_spec, lemma_net_spec_len, net_modifies, net_spec,
};
use vstd::prelude::*;

verus! {

/// What a module decides about a payload.
#[derive(Clone, Copy, PartialEq, Eq, Structural, Debug)]
pub enum ModuleAction {
    Allow,
    Deny,
}

/// What a hook reports: whether it changed the payload, and its decision.
#[derive(Clone, Copy, Debug)]
pub struct ModuleReturn {
    pub modified: bool,
    pub action: ModuleAction,
}

/// The write hook that a module installs.
#[derive(Clone, Copy, Debug)]
pub enum BlkWriteFunc {
    /// Seal the sector: `module_cvm_hardening::blk_write`.
    CvmHardening,
    /// Refuse the request: `module_fl::blk_write`.
    Fl,
}

/// The read hook that a module installs.
#[derive(Clone, Copy, Debug)]
pub enum BlkReadFunc {
    /// Open the sector: `module_cvm_hardening::blk_read`.
    CvmHardening,
    /// Refuse the request: `module_fl::blk_read`.
    Fl,
}

/// The transmit hook that a module installs.
#[derive(Clone, Copy, Debug)]
pub enum NetTxFunc {
    /// Encrypt TCP and UDP payloads: `module_cvm_hardening::net_tx`.
    CvmHardening,
}

/// The receive hook that a module installs.
#[derive(Clone, Copy, Debug)]
pub enum NetRxFunc {
    /// Decrypt TCP and UDP payloads: `module_cvm_hardening::net_rx`.
    CvmHardening,
    /// Let the frame pass: `module_fl::net_rx`.
    Fl,
}

/// A registered module: its name, its place in the order, and its hooks.
pub struct Module {
    pub name: String,
    pub priority: u8,
    pub blk_write: BlkWriteFunc,
    pub blk_read: BlkReadFunc,
    pub net_tx: NetTxFunc,
    pub net_rx: NetRxFunc,
}

impl Module {
    /// Whether the module's block hook for the given direction denies.
    pub open spec fn blk_denies(self, is_write: bool) -> bool {
        if is_write {
            self.blk_write is Fl
        } else {
            self.blk_read is Fl
        }
    }

    /// Whether the module's block hook for the given direction reports a
    /// change.
    pub open spec fn blk_modifies(self, is_write: bool) -> bool {
        !self.blk_denies(is_write)
    }

    /// Payload and tag table after the module's block hook.
    pub open spec fn blk_spec(self, is_write: bool, data: Seq<u8>, sector: u64, table: Seq<u8>) -> (
        Seq<u8>,
        Seq<u8>,
    ) {
        if self.blk_denies(is_write) {
            (data, table)
        } else if is_write {
            blk_write_spec(data, sector, table)
        } else {
            (blk_read_spec(data, sector, table), table)
        }
    }

    /// Whether the module's network hook for the given direction cares
    /// about frames at all.
    pub open spec fn net_active(self, is_tx: bool) -> bool {
        is_tx || self.net_rx is CvmHardening
    }

    /// Whether the module's network hook reports a change of this frame.
    pub open spec fn net_modifies(self, is_tx: bool, data: Seq<u8>) -> bool {
        self.net_active(is_tx) && net_modifies(data)
    }

    /// The frame after the module's network hook.
    pub open spec fn net_spec(self, is_tx: bool, data: Seq<u8>) -> Seq<u8> {
        if self.net_active(is_tx) {
            net_spec(data, is_tx)
        } else {
            data
        }
    }
}

/// Payload and tag table after the block hooks of the first `n` modules,
/// each run on what the one before it left.
pub open spec fn blk_chain(
    mods: Seq<Module>,
    n: nat,
    is_write: bool,
    data: Seq<u8>,
    sector: u64,
    table: Seq<u8>,
) -> (Seq<u8>, Seq<u8>)
    decreases n,
{
    if n == 0 {
        (data, table)
    } else {
        let prev = blk_chain(mods, (n - 1) as nat, is_write, data, sector, table);
        mods[n - 1].blk_spec(is_write, prev.0, sector, prev.1)
    }
}

/// Whether any of the block hooks of the first `n` modules reports a change.
pub open spec fn blk_chain_modified(mods: Seq<Module>, n: nat, is_write: bool) -> bool {
    exists|i: int| 0 <= i < n && (#[trigger] mods[i]).blk_modifies(is_write)
}

/// The frame after the network hooks of the first `n` modules, each run on
/// what the one before it left.
pub open spec fn net_chain(mods: Seq<Module>, n: nat, is_tx: bool, data: Seq<u8>) -> Seq<u8>
    decreases n,
{
    if n == 0 {
        data
    } else {
        mods[n - 1].net_spec(is_tx, net_chain(mods, (n - 1) as nat, is_tx, data))
    }
}

/// Whether any of the network hooks of the first `n` modules reports a
/// change of the frame as it reaches that hook.
pub open spec fn net_chain_modified(mods: Seq<Module>, n: nat, is_tx: bool, data: Seq<u8>) -> bool
    decreases n,
{
    if n == 0 {
        false
    } else {
        net_chain_modified(mods, (n - 1) as nat, is_tx, data) || mods[n - 1].net_modifies(
            is_tx,
            net_chain(mods, (n - 1) as nat, is_tx, data),
        )
    }
}

/// The registered modules, lowest priority first.
pub struct ModuleRegistry {
    pub modules: Vec<Module>,
}

impl ModuleRegistry {
    /// Priorities ascend strictly and no name occurs twice.
    pub open spec fn wf(&self) -> bool {
        &&& forall|i: int, j: int|
            0 <= i < j < self.modules@.len() ==> self.modules@[i].priority
                < self.modules@[j].priority
        &&& forall|i: int, j: int|
            0 <= i < j < self.modules@.len() ==> self.modules@[i].name@ != self.modules@[j].name@
    }

    /// Whether a module of this name or this priority is registered.
    pub open spec fn holds(&self, name: Seq<char>, priority: u8) -> bool {
        exists|i: int|
            0 <= i < self.modules@.len() && ((#[trigger] self.modules@[i]).name@ == name
                || self.modules@[i].priority == priority)
    }

    /// Whether no registered module denies block requests of the given
    /// direction.
    pub open spec fn permits_blk(&self, is_write: bool) -> bool {
        forall|i: int|
            0 <= i < self.modules@.len() ==> !(#[trigger] self.modules@[i]).blk_denies(is_write)
    }

    /// A registry without modules.
    pub fn new() -> (registry: Self)
        ensures
            registry.wf(),
            registry.modules@.len() == 0,
    {
        ModuleRegistry { modules: Vec::new() }
    }

    /// Number of registered modules.
    pub fn len(&self) -> (n: usize)
        ensures
            n == self.modules@.len(),
    {
        self.modules.len()
    }

    /// Tells whether no registered module denies block writes.
    pub fn permits_blk_write(&self) -> (ok: bool)
        ensures
            ok == self.permits_blk(true),
    {
        let n: usize = self.modules.len();
        let mut i: usize = 0;
        while i < n
            invariant
                n == self.modules@.len(),
                i <= n,
                forall|k: int| 0 <= k < i ==> !(#[trigger] self.modules@[k]).blk_denies(true),
            decreases n - i,
        {
            match self.modules[i].blk_write {
                BlkWriteFunc::Fl => {
                    return false;
                },
                BlkWriteFunc::CvmHardening => {},
            }
            i += 1;
        }
        true
    }

    /// Tells whether no registered module denies block reads.
    pub fn permits_blk_read(&self) -> (ok: bool)
        ensures
            ok == self.permits_blk(false),
    {
        let n: usize = self.modules.len();
        let mut i: usize = 0;
        while i < n
            invariant
                n == self.modules@.len(),
                i <= n,
                forall|k: int| 0 <= k < i ==> !(#[trigger] self.modules@[k]).blk_denies(false),
            decreases n - i,
        {
            match self.modules[i].blk_read {
                BlkReadFunc::Fl => {
                    return false;
                },
                BlkReadFunc::CvmHardening => {},
            }
            i += 1;
        }
        true
    }
}

/// `after` is `before` with one module of the given name, priority and
/// hooks put in at index `at`.
pub open spec fn placed_at(
    before: Seq<Module>,
    after: Seq<Module>,
    at: int,
    name: Seq<char>,
    priority: u8,
    blk_write: BlkWriteFunc,
    blk_read: BlkReadFunc,
    net_tx: NetTxFunc,
    net_rx: NetRxFunc,
) -> bool {
    &&& 0 <= at <= before.len()
    &&& after == before.insert(at, after[at])
    &&& after[at].name@ == name
    &&& after[at].priority == priority
    &&& after[at].blk_write == blk_write
    &&& after[at].blk_read == blk_read
    &&& after[at].net_tx == net_tx
    &&& after[at].net_rx == net_rx
}

/// Registers a module. It is placed by ascending priority; a module whose
/// name or priority is already registered is rejected and the registry
/// stays as it was.
pub fn add_module(
    registry: &mut ModuleRegistry,
    name: &str,
    priority: u8,
    blk_write: BlkWriteFunc,
    blk_read: BlkReadFunc,
    net_tx: NetTxFunc,
    net_rx: NetRxFunc,
) -> (ok: bool)
    requires
        old(registry).wf(),
    ensures
        final(registry).wf(),
        ok == !old(registry).holds(name@, priority),
        !ok ==> final(registry).modules@ == old(registry).modules@,
        ok ==> exists|at: int|
            #[trigger] placed_at(
                old(registry).modules@,
                final(registry).modules@,
                at,
                name@,
                priority,
                blk_write,
                blk_read,
                net_tx,
                net_rx,
            ),
{
    let owned: String = name.to_owned();
    let n: usize = registry.modules.len();
    let mut at: usize = n;
    let mut i: usize = 0;
    while i < n
        invariant
            n == registry.modules@.len(),
            registry.modules@ == old(registry).modules@,
            registry.wf(),
            owned@ == name@,
            i <= n,
            at <= n,
            at < n ==> at < i,
            forall|k: int|
                0 <= k < i ==> (#[trigger] registry.modules@[k]).name@ != name@
                    && registry.modules@[k].priority != priority,
            forall|k: int|
                0 <= k < i && k < at ==> (#[trigger] registry.modules@[k]).priority < priority,
            at < n ==> registry.modules@[at as int].priority > priority,
        decreases n - i,
    {
        if registry.modules[i].name == owned || registry.modules[i].priority == priority {
            return false;
        }
        if at == n && registry.modules[i].priority > priority {
            at = i;
        }
        i += 1;
    }
    let module = Module { name: owned, priority, blk_write, blk_read, net_tx, net_rx };
    registry.modules.insert(at, module);
    assert(placed_at(
        old(registry).modules@,
        registry.modules@,
        at as int,
        name@,
        priority,
        blk_write,
        blk_read,
        net_tx,
        net_rx,
    ));
    true
}

/// Runs the block hooks of all modules, in priority order.
fn run_blk_hooks(
    registry: &ModuleRegistry,
    is_write: bool,
    data: &mut [u8],
    sector: u64,
    tag_table: &mut [u8],
) -> (ret: ModuleReturn)
    requires
        registry.permits_blk(is_write),
    ensures
        ret.action == ModuleAction::Allow,
        ret.modified == blk_chain_modified(registry.modules@, registry.modules@.len(), is_write),
        (final(data)@, final(tag_table)@) == blk_chain(
            registry.modules@,
            registry.modules@.len(),
            is_write,
            old(data)@,
            sector,
            old(tag_table)@,
        ),
        final(data)@.len() == old(data)@.len(),
        final(tag_table)@.len() == old(tag_table)@.len(),
{
    let mut modified: bool = false;
    let n: usize = registry.modules.len();
    let mut i: usize = 0;
    while i < n
        invariant
            n == registry.modules@.len(),
            registry.permits_blk(is_write),
            i <= n,
            modified == blk_chain_modified(registry.modules@, i as nat, is_write),
            (data@, tag_table@) == blk_chain(
                registry.modules@,
                i as nat,
                is_write,
                old(data)@,
                sector,
                old(tag_table)@,
            ),
            data@.len() == old(data)@.len(),
            tag_table@.len() == old(tag_table)@.len(),
        decreases n - i,
    {
        let module = &registry.modules[i];
        assert(!registry.modules@[i as int].blk_denies(is_write));
        let res = if is_write {
            match module.blk_write {
                BlkWriteFunc::CvmHardening => crate::module_cvm_hardening::blk_write(
                    data,
                    sector,
                    tag_table,
                ),
                BlkWriteFunc::Fl => crate::module_fl::blk_write(data, sector, tag_table),
            }
        } else {
            match module.blk_read {
                BlkReadFunc::CvmHardening => crate::module_cvm_hardening::blk_read(
                    data,
                    sector,
                    tag_table,
                ),
                BlkReadFunc::Fl => crate::module_fl::blk_read(data, sector, tag_table),
            }
        };
        if res.modified {
            modified = true;
        }
        i += 1;
        assert(registry.modules@[i - 1].blk_modifies(is_write));
    }
    ModuleReturn { modified, action: ModuleAction::Allow }
}

/// Runs the network hooks of all modules, in priority order.
fn run_net_hooks(registry: &ModuleRegistry, is_tx: bool, data: &mut [u8], arg1: usize) -> (ret:
    ModuleReturn)
    ensures
        ret.action == ModuleAction::Allow,
        ret.modified == net_chain_modified(
            registry.modules@,
            registry.modules@.len(),
            is_tx,
            old(data)@,
        ),
        final(data)@ == net_chain(registry.modules@, registry.modules@.len(), is_tx, old(data)@),
        final(data)@.len() == old(data)@.len(),
{
    let mut modified: bool = false;
    let n: usize = registry.modules.len();
    let mut i: usize = 0;
    while i < n
        invariant
            n == registry.modules@.len(),
            i <= n,
            modified == net_chain_modified(registry.modules@, i as nat, is_tx, old(data)@),
            data@ == net_chain(registry.modules@, i as nat, is_tx, old(data)@),
            data@.len() == old(data)@.len(),
        decreases n - i,
    {
        let module = &registry.modules[i];
        let res = if is_tx {
            match module.net_tx {
                NetTxFunc::CvmHardening => crate::module_cvm_hardening::net_tx(data, arg1),
            }
        } else {
            match module.net_rx {
                NetRxFunc::CvmHardening => crate::module_cvm_hardening::net_rx(data, arg1),
                NetRxFunc::Fl => crate::module_fl::net_rx(data, arg1),
            }
        };
        if res.modified {
            modified = true;
        }
        i += 1;
    }
    ModuleReturn { modified, action: ModuleAction::Allow }
}

/// Runs every module's write hook on a block payload, lowest priority
/// first. `arg1` is the sector, `arg2` the table of sector tags. The caller
/// makes sure that no module denies block writes; the result reports a
/// change if any hook did.
pub fn monitor_blk_write(
    registry: &ModuleRegistry,
    data: &mut [u8],
    arg1: u64,
    arg2: &mut [u8],
) -> (ret: ModuleReturn)
    requires
        registry.permits_blk(true),
    ensures
        ret.action == ModuleAction::Allow,
        ret.modified == blk_chain_modified(registry.modules@, registry.modules@.len(), true),
        (final(data)@, final(arg2)@) == blk_chain(
            registry.modules@,
            registry.modules@.len(),
            true,
            old(data)@,
            arg1,
            old(arg2)@,
        ),
        final(data)@.len() == old(data)@.len(),
        final(arg2)@.len() == old(arg2)@.len(),
{
    run_blk_hooks(registry, true, data, arg1, arg2)
}

/// Runs every module's read hook on a block payload, lowest priority
/// first. `arg1` is the sector, `arg2` the table of sector tags. The caller
/// makes sure that no module denies block reads; the result reports a
/// change if any hook did.
pub fn monitor_blk_read(
    registry: &ModuleRegistry,
    data: &mut [u8],
    arg1: u64,
    arg2: &mut [u8],
) -> (ret: ModuleReturn)
    requires
        registry.permits_blk(false),
    ensures
        ret.action == ModuleAction::Allow,
        ret.modified == blk_chain_modified(registry.modules@, registry.modules@.len(), false),
        (final(data)@, final(arg2)@) == blk_chain(
            registry.modules@,
            registry.modules@.len(),
            false,
            old(data)@,
            arg1,
            old(arg2)@,
        ),
        final(data)@.len() == old(data)@.len(),
        final(arg2)@.len() == old(arg2)@.len(),
{
    run_blk_hooks(registry, false, data, arg1, arg2)
}

/// Runs every module's transmit hook on a frame, lowest priority first.
/// The result reports a change if any hook did.
pub fn monitor_net_tx(registry: &ModuleRegistry, data: &mut [u8], arg1: usize) -> (ret:
    ModuleReturn)
    ensures
        ret.action == ModuleAction::Allow,
        ret.modified == net_chain_modified(
            registry.modules@,
            registry.modules@.len(),
            true,
            old(data)@,
        ),
        final(data)@ == net_chain(registry.modules@, registry.modules@.len(), true, old(data)@),
        final(data)@.len() == old(data)@.len(),
{
    run_net_hooks(registry, true, data, arg1)
}

/// Runs every module's receive hook on a frame, lowest priority first.
/// The result reports a change if any hook did.
pub fn monitor_net_rx(registry: &ModuleRegistry, data: &mut [u8], arg1: usize) -> (ret:
    ModuleReturn)
    ensures
        ret.action == ModuleAction::Allow,
        ret.modified == net_chain_modified(
            registry.modules@,
            registry.modules@.len(),
            false,
            old(data)@,
        ),
        final(data)@ == net_chain(registry.modules@, registry.modules@.len(), false, old(data)@),
        final(data)@.len() == old(data)@.len(),
{
    run_net_hooks(registry, false, data, arg1)
}

/// The read hooks of the modules leave the tag table alone.
pub proof fn lemma_blk_read_keeps_table(
    mods: Seq<Module>,
    n: nat,
    data: Seq<u8>,
    sector: u64,
    table: Seq<u8>,
)
    requires
        n <= mods.len(),
    ensures
        blk_chain(mods, n, false, data, sector, table).1 == table,
    decreases n,
{
    if n > 0 {
        lemma_blk_read_keeps_table(mods, (n - 1) as nat, data, sector, table);
    }
}

/// The network hooks of the modules keep the length of a frame.
pub proof fn lemma_net_chain_len(mods: Seq<Module>, n: nat, is_tx: bool, data: Seq<u8>)
    requires
        n <= mods.len(),
    ensures
        net_chain(mods, n, is_tx, data).len() == data.len(),
    decreases n,
{
    if n > 0 {
        lemma_net_chain_len(mods, (n - 1) as nat, is_tx, data);
        lemma_net_spec_len(net_chain(mods, (n - 1) as nat, is_tx, data), is_tx);
    }
}

/// What the network hooks report together is the disjunction of what each
/// reports: a change is reported exactly if some module's hook changes the
/// frame as it reaches that hook.
pub proof fn lemma_net_chain_modified_is_any(
    mods: Seq<Module>,
    n: nat,
    is_tx: bool,
    data: Seq<u8>,
)
    requires
        n <= mods.len(),
    ensures
        net_chain_modified(mods, n, is_tx, data) <==> exists|i: int|
            0 <= i < n && #[trigger] reports_change(mods, i, is_tx, data),
    decreases n,
{
    if n > 0 {
        lemma_net_chain_modified_is_any(mods, (n - 1) as nat, is_tx, data);
        if net_chain_modified(mods, n, is_tx, data) {
            if net_chain_modified(mods, (n - 1) as nat, is_tx, data) {
                let i = choose|i: int|
                    0 <= i < n - 1 && #[trigger] reports_change(mods, i, is_tx, data);
                assert(reports_change(mods, i, is_tx, data));
            } else {
                assert(reports_change(mods, n - 1, is_tx, data));
            }
        }
        if exists|i: int| 0 <= i < n && #[trigger] reports_change(mods, i, is_tx, data) {
            let i = choose|i: int| 0 <= i < n && #[trigger] reports_change(mods, i, is_tx, data);
            if i < n - 1 {
                assert(reports_change(mods, i, is_tx, data));
            }
        }
    }
}

/// Whether the network hook of module `i` reports a change of the frame as
/// the modules before it left it.
pub open spec fn reports_change(mods: Seq<Module>, i: int, is_tx: bool, data: Seq<u8>) -> bool {
    mods[i].net_modifies(is_tx, net_chain(mods, i as nat, is_tx, data))
}

/// Registering a module changes nothing for the modules already there:
/// each is still registered, and the registry holds one module more.
pub proof fn lemma_placed_keeps_modules(
    before: Seq<Module>,
    after: Seq<Module>,
    at: int,
    name: Seq<char>,
    priority: u8,
    blk_write: BlkWriteFunc,
    blk_read: BlkReadFunc,
    net_tx: NetTxFunc,
    net_rx: NetRxFunc,
)
    requires
        placed_at(before, after, at, name, priority, blk_write, blk_read, net_tx, net_rx),
    ensures
        after.len() == before.len() + 1,
        forall|i: int| 0 <= i < at ==> after[i] == before[i],
        forall|i: int| at <= i < before.len() ==> after[i + 1] == before[i],
{
}

} // verus!
