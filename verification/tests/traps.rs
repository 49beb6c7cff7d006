use vga_console::traps::handle_fault;
use vga_console::traps::ExceptionVectorTable;
use vga_console::traps::GateDescriptor;
use vga_console::traps::GlobalDescriptorTable;
use vga_console::traps::TaskStateSegment;
use vga_console::traps::DOUBLE_FAULT_STACK_INDEX;
use vga_console::traps::KEYBOARD_VECTOR;
use vga_console::traps::STACK_SWITCH_SLOTS;
use vga_console::traps::TIMER_VECTOR;
use vga_console::traps::VECTOR_COUNT;
use vga_console::traps::AckOrder;
use vga_console::traps::BootState;
use vga_console::traps::ControllerPair;
use vga_console::traps::FaultOutcome;
use vga_console::traps::BREAKPOINT_VECTOR;
use vga_console::traps::DOUBLE_FAULT_VECTOR;

fn booted() -> BootState {
    let mut boot = BootState::start();
    boot.init_stack_switch();
    boot.init_vector_table();
    boot.init_controllers();
    boot.enable_interrupts();
    boot
}

#[test]
fn boot_sequence_reaches_full_initialization() {
    let boot = booted();
    assert!(boot.stack_switch_ready);
    assert!(boot.vector_table_ready);
    assert!(boot.controllers_ready);
    assert!(boot.interrupts_enabled);
}

// The resumable trap is serviced and execution continues.
#[test]
fn breakpoint_resumes() {
    let boot = booted();
    let (outcome, diagnostic) = handle_fault(&boot, BREAKPOINT_VECTOR);
    assert_eq!(outcome, FaultOutcome::Resumed);
    assert_eq!(diagnostic, "EXCEPTION: BREAKPOINT");
}

// The fatal-fault trigger after full boot initialization halts with a
// diagnostic and does not reset the machine.
#[test]
fn double_fault_after_full_boot_halts_cleanly() {
    let boot = booted();
    let (outcome, diagnostic) = handle_fault(&boot, DOUBLE_FAULT_VECTOR);
    assert_eq!(outcome, FaultOutcome::Halted);
    assert_eq!(diagnostic, "EXCEPTION: DOUBLE FAULT");
}

// With the stack-switch descriptor in place a fatal fault is caught on the
// alternate stack; without it the machine resets uncontrolled.
#[test]
fn stack_switch_decides_fatal_fault_fate() {
    let mut boot = BootState::start();
    let (outcome, _) = handle_fault(&boot, DOUBLE_FAULT_VECTOR);
    assert_eq!(outcome, FaultOutcome::UncontrolledReset);
    boot.init_stack_switch();
    let (outcome, _) = handle_fault(&boot, DOUBLE_FAULT_VECTOR);
    assert_eq!(outcome, FaultOutcome::Halted);
}

#[test]
fn task_state_segment_records_stack_top() {
    let mut tss = TaskStateSegment::new();
    assert_eq!(tss.interrupt_stack_tops.len(), STACK_SWITCH_SLOTS);
    assert!(tss.interrupt_stack_tops.iter().all(|&t| t == 0));
    tss.set_stack_top(DOUBLE_FAULT_STACK_INDEX, 0x1000, 0x5000);
    assert_eq!(tss.interrupt_stack_tops[DOUBLE_FAULT_STACK_INDEX], 0x6000);
}

#[test]
fn vector_table_binds_fatal_entry_to_alternate_stack() {
    let mut tss = TaskStateSegment::new();
    tss.set_stack_top(DOUBLE_FAULT_STACK_INDEX, 0x1000, 0x5000);
    let gdt = GlobalDescriptorTable::build();
    let table = ExceptionVectorTable::build(&gdt, &tss);
    assert_eq!(table.entries.len(), VECTOR_COUNT);
    let bp: GateDescriptor = table.entries[BREAKPOINT_VECTOR as usize];
    assert!(bp.present);
    assert_eq!(bp.selector, gdt.code_selector);
    assert_eq!(bp.stack_switch_index, None);
    let df: GateDescriptor = table.entries[DOUBLE_FAULT_VECTOR as usize];
    assert!(df.present);
    assert_eq!(df.selector, gdt.code_selector);
    assert_eq!(df.stack_switch_index, Some(DOUBLE_FAULT_STACK_INDEX as u8));
    for v in [TIMER_VECTOR, KEYBOARD_VECTOR] {
        let e: GateDescriptor = table.entries[v as usize];
        assert!(e.present);
        assert_eq!(e.selector, gdt.code_selector);
        assert_eq!(e.stack_switch_index, None);
    }
    let populated =
        [BREAKPOINT_VECTOR, DOUBLE_FAULT_VECTOR, TIMER_VECTOR, KEYBOARD_VECTOR].map(usize::from);
    for (v, e) in table.entries.iter().enumerate() {
        if !populated.contains(&v) {
            assert!(!e.present);
        }
    }
}

#[test]
fn acknowledge_order_follows_the_chain() {
    let pair = ControllerPair::initialize(32, 40, 0, 0);
    assert_eq!(pair.acknowledge(40), AckOrder::SecondaryThenPrimary);
    assert_eq!(pair.acknowledge(47), AckOrder::SecondaryThenPrimary);
    assert_eq!(pair.acknowledge(32), AckOrder::PrimaryOnly);
    assert_eq!(pair.acknowledge(33), AckOrder::PrimaryOnly);
    assert_eq!(pair.acknowledge(3), AckOrder::NotHandled);
    assert_eq!(pair.acknowledge(48), AckOrder::NotHandled);
}

#[test]
fn mask_and_unmask_touch_only_the_owning_register() {
    let mut pair = ControllerPair::initialize(32, 40, 0, 0);
    pair.mask(2);
    assert_eq!(pair.primary_mask, 0b100);
    assert_eq!(pair.secondary_mask, 0);
    pair.mask(10);
    assert_eq!(pair.primary_mask, 0b100);
    assert_eq!(pair.secondary_mask, 0b100);
    pair.unmask(2);
    assert_eq!(pair.primary_mask, 0);
    assert_eq!(pair.secondary_mask, 0b100);
    pair.unmask(10);
    assert_eq!(pair.secondary_mask, 0);
}
