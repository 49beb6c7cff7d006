//! Boot ordering and the fault path.
//!
//! Models the rules the trap-handling subsystem must obey: the stack-switch
//! descriptor is built before the vector table's fatal entry, the vector
//! table before the interrupt controllers are remapped, and the controllers
//! before interrupts are enabled.  A fault is either resumable (execution
//! continues after a diagnostic) or fatal; a fatal fault halts cleanly only
//! if the alternate stack was reserved first, and otherwise escalates to an
//! uncontrolled reset.  Acknowledgment of a hardware line owned by the
//! second controller goes to that controller first, then to the first.

use vstd::prelude::*;

verus! {

/// Vector number of the resumable diagnostic trap.
pub const BREAKPOINT_VECTOR: u8 = 3;

/// Vector number of the fatal fault raised when fault delivery itself fails.
pub const DOUBLE_FAULT_VECTOR: u8 = 8;

/// Vectors below this bound are reserved by the CPU for faults; hardware
/// interrupt lines must be remapped at or above it.
pub const RESERVED_VECTOR_LIMIT: u8 = 32;

/// Vector of the hardware timer line after the remap.
pub const TIMER_VECTOR: u8 = 32;

/// Vector of the keyboard line after the remap.
pub const KEYBOARD_VECTOR: u8 = 33;

/// Number of entries in the exception vector table.
pub const VECTOR_COUNT: usize = 256;

/// Number of alternate-stack slots in the task-state segment.
pub const STACK_SWITCH_SLOTS: usize = 7;

/// The slot reserved for the fatal-fault path's alternate stack.
pub const DOUBLE_FAULT_STACK_INDEX: usize = 0;

/// The task-state segment: the ordered list of alternate stack tops.  One
/// slot is reserved for the fatal-fault path; a slot holding zero has no
/// stack behind it.
pub struct TaskStateSegment {
    pub interrupt_stack_tops: Vec<u64>,
}

impl TaskStateSegment {
    pub open spec fn wf(self) -> bool {
        self.interrupt_stack_tops@.len() == STACK_SWITCH_SLOTS
    }

    /// A fresh segment with every slot empty.
    pub fn new() -> (t: TaskStateSegment)
        ensures
            t.wf(),
            forall|i: int|
                0 <= i < STACK_SWITCH_SLOTS ==> t.interrupt_stack_tops@[i] == 0,
    {
        let mut interrupt_stack_tops: Vec<u64> = Vec::new();
        while interrupt_stack_tops.len() < STACK_SWITCH_SLOTS
            invariant
                interrupt_stack_tops@.len() <= STACK_SWITCH_SLOTS,
                forall|i: int|
                    0 <= i < interrupt_stack_tops@.len() ==> interrupt_stack_tops@[i] == 0,
            decreases STACK_SWITCH_SLOTS - interrupt_stack_tops.len(),
        {
            interrupt_stack_tops.push(0);
        }
        TaskStateSegment { interrupt_stack_tops }
    }

    /// Store the top of a statically-owned stack buffer in a slot.  The top
    /// is the address one past the buffer, since stacks grow downward.
    pub fn set_stack_top(&mut self, slot: usize, base: u64, size: u64)
        requires
            old(self).wf(),
            slot < STACK_SWITCH_SLOTS,
            base + size <= u64::MAX,
        ensures
            final(self).wf(),
            final(self).interrupt_stack_tops@ == old(self).interrupt_stack_tops@.update(
                slot as int,
                (base + size) as u64,
            ),
    {
        self.interrupt_stack_tops[slot] = base + size;
    }
}

/// The descriptor table: one code segment and the task-state segment, each
/// named by the selector for its position.
pub struct GlobalDescriptorTable {
    pub code_selector: u16,
    pub tss_selector: u16,
}

impl GlobalDescriptorTable {
    /// Selectors are positions scaled by the descriptor size: the code
    /// segment sits at position 1, the task-state segment at position 2.
    pub open spec fn wf(self) -> bool {
        &&& self.code_selector == 8
        &&& self.tss_selector == 16
    }

    pub fn build() -> (g: GlobalDescriptorTable)
        ensures
            g.wf(),
    {
        GlobalDescriptorTable { code_selector: 8, tss_selector: 16 }
    }
}

/// One entry of the exception vector table.
#[derive(Clone, Copy, PartialEq, Eq, Structural, Debug)]
pub struct GateDescriptor {
    pub present: bool,
    pub selector: u16,
    pub stack_switch_index: Option<u8>,
}

/// The exception vector table: a fixed-size sequence of gate descriptors
/// indexed by vector number.
pub struct ExceptionVectorTable {
    pub entries: Vec<GateDescriptor>,
}

impl ExceptionVectorTable {
    /// The table's invariant: full size; the entries reachable before
    /// interrupts are enabled are populated with the kernel code selector;
    /// and the fatal-fault entry refers to the reserved alternate-stack
    /// slot.
    pub open spec fn wf(self, gdt: GlobalDescriptorTable) -> bool {
        &&& self.entries@.len() == VECTOR_COUNT
        &&& self.entries@[BREAKPOINT_VECTOR as int].present
        &&& self.entries@[BREAKPOINT_VECTOR as int].selector == gdt.code_selector
        &&& self.entries@[BREAKPOINT_VECTOR as int].stack_switch_index is None
        &&& self.entries@[DOUBLE_FAULT_VECTOR as int].present
        &&& self.entries@[DOUBLE_FAULT_VECTOR as int].selector == gdt.code_selector
        &&& self.entries@[DOUBLE_FAULT_VECTOR as int].stack_switch_index == Some(
            DOUBLE_FAULT_STACK_INDEX as u8,
        )
        &&& self.entries@[TIMER_VECTOR as int].present
        &&& self.entries@[TIMER_VECTOR as int].selector == gdt.code_selector
        &&& self.entries@[TIMER_VECTOR as int].stack_switch_index is None
        &&& self.entries@[KEYBOARD_VECTOR as int].present
        &&& self.entries@[KEYBOARD_VECTOR as int].selector == gdt.code_selector
        &&& self.entries@[KEYBOARD_VECTOR as int].stack_switch_index is None
    }

    /// Build the table: the resumable and fatal fault entries, and the
    /// timer and keyboard entries whose handlers delegate acknowledgment to
    /// the controller driver.  The fatal entry is bound to the reserved
    /// alternate-stack slot, so that slot must already hold a stack: this is
    /// the ordering invariant that puts the stack-switch descriptor before
    /// the vector table in the boot sequence.
    pub fn build(gdt: &GlobalDescriptorTable, tss: &TaskStateSegment) -> (t: ExceptionVectorTable)
        requires
            tss.wf(),
            tss.interrupt_stack_tops@[DOUBLE_FAULT_STACK_INDEX as int] != 0,
        ensures
            t.wf(*gdt),
            forall|v: int|
                0 <= v < VECTOR_COUNT && v != BREAKPOINT_VECTOR && v != DOUBLE_FAULT_VECTOR && v
                    != TIMER_VECTOR && v != KEYBOARD_VECTOR ==> !(#[trigger] t.entries@[v]).present,
    {
        let absent = GateDescriptor { present: false, selector: 0, stack_switch_index: None };
        let mut entries: Vec<GateDescriptor> = Vec::new();
        while entries.len() < VECTOR_COUNT
            invariant
                entries@.len() <= VECTOR_COUNT,
                forall|v: int| 0 <= v < entries@.len() ==> entries@[v] == absent,
                !absent.present,
            decreases VECTOR_COUNT - entries.len(),
        {
            entries.push(absent);
        }
        entries[BREAKPOINT_VECTOR as usize] = GateDescriptor {
            present: true,
            selector: gdt.code_selector,
            stack_switch_index: None,
        };
        entries[DOUBLE_FAULT_VECTOR as usize] = GateDescriptor {
            present: true,
            selector: gdt.code_selector,
            stack_switch_index: Some(DOUBLE_FAULT_STACK_INDEX as u8),
        };
        entries[TIMER_VECTOR as usize] = GateDescriptor {
            present: true,
            selector: gdt.code_selector,
            stack_switch_index: None,
        };
        entries[KEYBOARD_VECTOR as usize] = GateDescriptor {
            present: true,
            selector: gdt.code_selector,
            stack_switch_index: None,
        };
        ExceptionVectorTable { entries }
    }
}

/// How far the boot sequence has come.  Each flag records that one
/// initialization step has completed.
pub struct BootState {
    pub stack_switch_ready: bool,
    pub vector_table_ready: bool,
    pub controllers_ready: bool,
    pub interrupts_enabled: bool,
}

impl BootState {
    /// The boot ordering invariant: the stack-switch descriptor comes before
    /// the vector table, the vector table before the controller remap, and
    /// the remap before interrupts are enabled.
    pub open spec fn wf(self) -> bool {
        &&& self.vector_table_ready ==> self.stack_switch_ready
        &&& self.controllers_ready ==> self.vector_table_ready
        &&& self.interrupts_enabled ==> self.controllers_ready
    }

    /// Everything is in place and interrupts are live.
    pub open spec fn fully_initialized(self) -> bool {
        &&& self.wf()
        &&& self.interrupts_enabled
    }

    /// The machine as it comes out of the firmware: nothing set up yet.
    pub fn start() -> (s: BootState)
        ensures
            s.wf(),
            !s.stack_switch_ready,
            !s.vector_table_ready,
            !s.controllers_ready,
            !s.interrupts_enabled,
    {
        BootState {
            stack_switch_ready: false,
            vector_table_ready: false,
            controllers_ready: false,
            interrupts_enabled: false,
        }
    }

    /// Build and load the descriptor table with the alternate-stack slot.
    /// First step; nothing is required of the machine yet.
    pub fn init_stack_switch(&mut self)
        requires
            old(self).wf(),
        ensures
            final(self).wf(),
            final(self).stack_switch_ready,
            final(self).vector_table_ready == old(self).vector_table_ready,
            final(self).controllers_ready == old(self).controllers_ready,
            final(self).interrupts_enabled == old(self).interrupts_enabled,
    {
        self.stack_switch_ready = true;
    }

    /// Build and load the exception vector table.  Its fatal entry refers to
    /// the alternate stack, so the stack-switch descriptor must already be
    /// in place.
    pub fn init_vector_table(&mut self)
        requires
            old(self).wf(),
            old(self).stack_switch_ready,
        ensures
            final(self).wf(),
            final(self).vector_table_ready,
            final(self).stack_switch_ready,
            final(self).controllers_ready == old(self).controllers_ready,
            final(self).interrupts_enabled == old(self).interrupts_enabled,
    {
        self.vector_table_ready = true;
    }

    /// Remap and unmask the interrupt controllers.  An interrupt delivered
    /// through a half-built table would dispatch into an unintended slot, so
    /// the vector table must be complete first.
    pub fn init_controllers(&mut self)
        requires
            old(self).wf(),
            old(self).vector_table_ready,
        ensures
            final(self).wf(),
            final(self).controllers_ready,
            final(self).stack_switch_ready,
            final(self).vector_table_ready,
            final(self).interrupts_enabled == old(self).interrupts_enabled,
    {
        self.controllers_ready = true;
    }

    /// Set the interrupt-enable flag.  Last step: only once the controllers
    /// are remapped may hardware interrupts arrive.
    pub fn enable_interrupts(&mut self)
        requires
            old(self).wf(),
            old(self).controllers_ready,
        ensures
            final(self).wf(),
            final(self).fully_initialized(),
    {
        self.interrupts_enabled = true;
    }
}

/// What becomes of the machine once a fault has been serviced.
#[derive(Clone, Copy, PartialEq, Eq, Structural, Debug)]
pub enum FaultOutcome {
    /// Execution resumes at the instruction following the trap.
    Resumed,
    /// The machine halts cleanly after printing a diagnostic.
    Halted,
    /// Stack corruption cascades and the machine resets uncontrolled.
    UncontrolledReset,
}

/// The fault-path state machine, collapsed to its outcome: a fatal fault
/// halts cleanly when the alternate stack was reserved and otherwise resets
/// the machine; every other vector is serviced and resumed.
pub open spec fn fault_outcome_spec(boot: BootState, vector: u8) -> FaultOutcome {
    if vector == DOUBLE_FAULT_VECTOR {
        if boot.stack_switch_ready {
            FaultOutcome::Halted
        } else {
            FaultOutcome::UncontrolledReset
        }
    } else {
        FaultOutcome::Resumed
    }
}

/// Dispatch one fault: classify the vector and decide the machine's fate,
/// handing back the diagnostic line the handler prints.
pub fn handle_fault(boot: &BootState, vector: u8) -> (r: (FaultOutcome, &'static str))
    ensures
        r.0 == fault_outcome_spec(*boot, vector),
        vector == BREAKPOINT_VECTOR ==> r.1@ == ("EXCEPTION: BREAKPOINT")@,
        vector == DOUBLE_FAULT_VECTOR ==> r.1@ == ("EXCEPTION: DOUBLE FAULT")@,
{
    if vector == DOUBLE_FAULT_VECTOR {
        if boot.stack_switch_ready {
            (FaultOutcome::Halted, "EXCEPTION: DOUBLE FAULT")
        } else {
            (FaultOutcome::UncontrolledReset, "EXCEPTION: DOUBLE FAULT")
        }
    } else if vector == BREAKPOINT_VECTOR {
        (FaultOutcome::Resumed, "EXCEPTION: BREAKPOINT")
    } else {
        (FaultOutcome::Resumed, "")
    }
}

/// Once the stack-switch descriptor is in place, no fault can escalate to an
/// uncontrolled reset: the fatal path always ends in a clean halt.
pub proof fn lemma_stack_switch_prevents_reset(boot: BootState, vector: u8)
    requires
        boot.stack_switch_ready,
    ensures
        fault_outcome_spec(boot, vector) != FaultOutcome::UncontrolledReset,
{
}

/// A resumable trap never stops the machine: it is always serviced and
/// resumed, whatever the boot state.
pub proof fn lemma_breakpoint_resumes(boot: BootState, vector: u8)
    requires
        vector == BREAKPOINT_VECTOR,
    ensures
        fault_outcome_spec(boot, vector) == FaultOutcome::Resumed,
{
}

/// In what order interrupt-acknowledge signals are sent for a vector.
#[derive(Clone, Copy, PartialEq, Eq, Structural, Debug)]
pub enum AckOrder {
    /// The vector belongs to neither controller: nothing to acknowledge.
    NotHandled,
    /// The line is the first controller's: acknowledge it alone.
    PrimaryOnly,
    /// The line is the second controller's: acknowledge it first, then the
    /// first controller it is chained through.
    SecondaryThenPrimary,
}

/// The chained pair of legacy interrupt controllers: each owns eight lines,
/// remapped to the vector range starting at its offset, and masks them with
/// one bit per line.
pub struct ControllerPair {
    pub primary_offset: u8,
    pub secondary_offset: u8,
    pub primary_mask: u8,
    pub secondary_mask: u8,
}

impl ControllerPair {
    /// Remap offsets stay clear of the CPU's reserved fault-vector range.
    pub open spec fn wf(self) -> bool {
        &&& self.primary_offset >= RESERVED_VECTOR_LIMIT
        &&& self.secondary_offset >= RESERVED_VECTOR_LIMIT
    }

    /// The first controller owns the eight vectors from its offset.
    pub open spec fn primary_handles(self, vector: u8) -> bool {
        self.primary_offset <= vector < self.primary_offset + 8
    }

    /// The second controller owns the eight vectors from its offset.
    pub open spec fn secondary_handles(self, vector: u8) -> bool {
        self.secondary_offset <= vector < self.secondary_offset + 8
    }

    /// Program both remap offsets and restore the saved line masks.
    pub fn initialize(
        primary_offset: u8,
        secondary_offset: u8,
        primary_mask: u8,
        secondary_mask: u8,
    ) -> (p: ControllerPair)
        requires
            primary_offset >= RESERVED_VECTOR_LIMIT,
            secondary_offset >= RESERVED_VECTOR_LIMIT,
        ensures
            p.wf(),
            p.primary_offset == primary_offset,
            p.secondary_offset == secondary_offset,
            p.primary_mask == primary_mask,
            p.secondary_mask == secondary_mask,
    {
        ControllerPair { primary_offset, secondary_offset, primary_mask, secondary_mask }
    }

    /// Decide the acknowledge order for a serviced vector: the second
    /// controller's lines are acknowledged on both controllers, second
    /// first; the first controller's on it alone.
    pub fn acknowledge(&self, vector: u8) -> (a: AckOrder)
        ensures
            self.secondary_handles(vector) ==> a == AckOrder::SecondaryThenPrimary,
            !self.secondary_handles(vector) && self.primary_handles(vector) ==> a
                == AckOrder::PrimaryOnly,
            !self.secondary_handles(vector) && !self.primary_handles(vector) ==> a
                == AckOrder::NotHandled,
    {
        if self.secondary_offset <= vector && vector - self.secondary_offset < 8 {
            AckOrder::SecondaryThenPrimary
        } else if self.primary_offset <= vector && vector - self.primary_offset < 8 {
            AckOrder::PrimaryOnly
        } else {
            AckOrder::NotHandled
        }
    }

    /// Mask one of the sixteen lines: set its bit in the owning controller's
    /// mask register, leaving the other register untouched.
    pub fn mask(&mut self, line: u8)
        requires
            line < 16,
        ensures
            final(self).primary_offset == old(self).primary_offset,
            final(self).secondary_offset == old(self).secondary_offset,
            line < 8 ==> final(self).primary_mask == old(self).primary_mask | (1u8 << line)
                && final(self).secondary_mask == old(self).secondary_mask,
            line >= 8 ==> final(self).secondary_mask == old(self).secondary_mask | (1u8 << (line
                - 8)) && final(self).primary_mask == old(self).primary_mask,
    {
        if line < 8 {
            self.primary_mask = self.primary_mask | (1u8 << line);
        } else {
            self.secondary_mask = self.secondary_mask | (1u8 << (line - 8));
        }
    }

    /// Unmask one of the sixteen lines: clear its bit in the owning
    /// controller's mask register, leaving the other register untouched.
    pub fn unmask(&mut self, line: u8)
        requires
            line < 16,
        ensures
            final(self).primary_offset == old(self).primary_offset,
            final(self).secondary_offset == old(self).secondary_offset,
            line < 8 ==> final(self).primary_mask == old(self).primary_mask & !(1u8 << line)
                && final(self).secondary_mask == old(self).secondary_mask,
            line >= 8 ==> final(self).secondary_mask == old(self).secondary_mask & !(1u8 << (line
                - 8)) && final(self).primary_mask == old(self).primary_mask,
    {
        if line < 8 {
            self.primary_mask = self.primary_mask & !(1u8 << line);
        } else {
            self.secondary_mask = self.secondary_mask & !(1u8 << (line - 8));
        }
    }
}

} // verus!
