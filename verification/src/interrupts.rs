//! Interrupt plumbing: the vector table, what each handler does to the
//! console and how it ends, and which interrupt controllers are told that an
//! interrupt has been served.

use vstd::prelude::*;
use vstd::string::StringSliceAdditionalSpecFns;
use vstd::utf8::encode_utf8;
use pc_keyboard::layouts::Us104Key;
use pc_keyboard::{DecodedKey, HandleControl, KeyCode, KeyEvent, Keyboard, ScancodeSet1};
use crate::vga_buffer::{Screen, Writer};
use crate::vga_laws::lemma_write_bytes_concat;

verus! {

/// The first vector of the primary controller: the first one above the
/// vectors that the processor keeps for its exceptions.
pub const PIC_1_OFFSET: u8 = 32;

/// The first vector of the secondary controller.
pub const PIC_2_OFFSET: u8 = PIC_1_OFFSET + 8;

/// The number of vectors in the table.
pub const VECTOR_COUNT: usize = 256;

/// The number of vectors that the processor keeps for its exceptions.
pub const EXCEPTION_COUNT: u8 = 32;

/// The vector of the breakpoint exception.
pub const BREAKPOINT_VECTOR: u8 = 3;

/// The vector of the double fault exception.
pub const DOUBLE_FAULT_VECTOR: u8 = 8;

/// The vector of the page fault exception.
pub const PAGE_FAULT_VECTOR: u8 = 14;

/// The number of alternate stacks that the processor can switch to.
pub const STACK_TABLE_SIZE: u16 = 7;

/// The hardware interrupts in use, each with the vector it arrives on.
#[derive(Debug, Clone, Copy, PartialEq, Eq, Structural)]
pub enum InterruptIndex {
    Timer,
    Keyboard,
}

impl InterruptIndex {
    /// The vector of the interrupt: its line on the primary controller above
    /// `PIC_1_OFFSET`.
    pub open spec fn vector(self) -> u8 {
        match self {
            InterruptIndex::Timer => PIC_1_OFFSET,
            InterruptIndex::Keyboard => (PIC_1_OFFSET + 1) as u8,
        }
    }

    pub fn as_u8(self) -> (vector: u8)
        ensures
            vector == self.vector(),
    {
        match self {
            InterruptIndex::Timer => PIC_1_OFFSET,
            InterruptIndex::Keyboard => PIC_1_OFFSET + 1,
        }
    }

    pub fn as_usize(self) -> (vector: usize)
        ensures
            vector == self.vector(),
    {
        self.as_u8() as usize
    }
}

/// The routines that a vector can be bound to.
#[derive(Debug, Clone, Copy, PartialEq, Eq, Structural)]
pub enum Handler {
    Breakpoint,
    DoubleFault,
    PageFault,
    Timer,
    Keyboard,
}

/// How a handler ends: what the code around it has to do when the handler
/// has done its part.
#[derive(Debug, Clone, Copy, PartialEq, Eq, Structural)]
pub enum Disposition {
    /// Go back to the interrupted code.
    Resume,
    /// Park the processor; the interrupted code is not resumed.
    Halt,
    /// Tell the interrupt controllers that this interrupt has been served,
    /// then go back to the interrupted code.
    Acknowledge(InterruptIndex),
}

impl Handler {
    /// How the handler ends: a fault that cannot be served parks the
    /// processor, a hardware interrupt is acknowledged, and only then, or
    /// after a breakpoint, does the interrupted code go on.
    pub open spec fn disposition(self) -> Disposition {
        match self {
            Handler::Breakpoint => Disposition::Resume,
            Handler::DoubleFault => Disposition::Halt,
            Handler::PageFault => Disposition::Halt,
            Handler::Timer => Disposition::Acknowledge(InterruptIndex::Timer),
            Handler::Keyboard => Disposition::Acknowledge(InterruptIndex::Keyboard),
        }
    }
}

/// A bound slot of the vector table.
#[derive(Debug, Clone, Copy, PartialEq, Eq, Structural)]
pub struct Entry {
    pub handler: Handler,
    /// The alternate stack that the processor switches to for this vector,
    /// where it has one.
    pub stack_index: Option<u16>,
}

/// The vector table: one slot for each vector, empty or bound to a handler.
/// A table is built by `init_idt` and is not changed after that.
pub struct VectorTable {
    entries: [Option<Entry>; 256],
}

impl View for VectorTable {
    type V = Seq<Option<Entry>>;

    closed spec fn view(&self) -> Seq<Option<Entry>> {
        self.entries@
    }
}

/// The slot of `vector` in the table that `init_idt` builds.
pub open spec fn installed_entry(vector: int, double_fault_stack: u16) -> Option<Entry> {
    if vector == BREAKPOINT_VECTOR {
        Some(Entry { handler: Handler::Breakpoint, stack_index: None })
    } else if vector == DOUBLE_FAULT_VECTOR {
        Some(Entry { handler: Handler::DoubleFault, stack_index: Some(double_fault_stack) })
    } else if vector == PAGE_FAULT_VECTOR {
        Some(Entry { handler: Handler::PageFault, stack_index: None })
    } else if vector == InterruptIndex::Timer.vector() {
        Some(Entry { handler: Handler::Timer, stack_index: None })
    } else if vector == InterruptIndex::Keyboard.vector() {
        Some(Entry { handler: Handler::Keyboard, stack_index: None })
    } else {
        None
    }
}

/// The table that `init_idt` builds.
pub open spec fn installed_table(double_fault_stack: u16) -> Seq<Option<Entry>> {
    Seq::new(VECTOR_COUNT as nat, |vector: int| installed_entry(vector, double_fault_stack))
}

impl VectorTable {
    /// A table with every slot empty.
    fn new() -> (table: VectorTable)
        ensures
            table@ == Seq::new(VECTOR_COUNT as nat, |vector: int| None::<Entry>),
    {
        let table = VectorTable { entries: [None;256] };
        assert(table@ =~= Seq::new(VECTOR_COUNT as nat, |vector: int| None::<Entry>));
        table
    }

    /// Binds `vector` to `handler`, on the stack that is in use when the
    /// interrupt arrives.
    fn set_handler(&mut self, vector: u8, handler: Handler)
        ensures
            final(self)@ == old(self)@.update(vector as int, Some(Entry { handler, stack_index: None })),
    {
        self.entries[vector as usize] = Some(Entry { handler, stack_index: None });
    }

    /// Binds `vector` to `handler`, on the alternate stack `stack_index`.
    fn set_handler_on_stack(&mut self, vector: u8, handler: Handler, stack_index: u16)
        requires
            stack_index < STACK_TABLE_SIZE,
        ensures
            final(self)@ == old(self)@.update(
                vector as int,
                Some(Entry { handler, stack_index: Some(stack_index) }),
            ),
    {
        self.entries[vector as usize] = Some(Entry { handler, stack_index: Some(stack_index) });
    }

    /// The slot of `vector`.
    pub fn entry(&self, vector: u8) -> (entry: Option<Entry>)
        ensures
            entry == self@[vector as int],
    {
        self.entries[vector as usize]
    }
}

/// Builds the vector table: the breakpoint, double fault and page fault
/// exceptions and the timer and keyboard interrupts are bound to their
/// handlers, the double fault on the alternate stack `double_fault_stack`;
/// every other slot is empty.
pub fn init_idt(double_fault_stack: u16) -> (table: VectorTable)
    requires
        double_fault_stack < STACK_TABLE_SIZE,
    ensures
        table@ == installed_table(double_fault_stack),
{
    let mut table = VectorTable::new();
    table.set_handler(BREAKPOINT_VECTOR, Handler::Breakpoint);
    table.set_handler_on_stack(DOUBLE_FAULT_VECTOR, Handler::DoubleFault, double_fault_stack);
    table.set_handler(PAGE_FAULT_VECTOR, Handler::PageFault);
    table.set_handler(InterruptIndex::Timer.as_u8(), Handler::Timer);
    table.set_handler(InterruptIndex::Keyboard.as_u8(), Handler::Keyboard);
    assert(table@ =~= installed_table(double_fault_stack));
    table
}

/// One of the two chained interrupt controllers.
#[derive(Debug, Clone, Copy, PartialEq, Eq, Structural)]
pub enum Controller {
    Primary,
    Secondary,
}

impl Controller {
    /// The first vector of the controller.
    pub open spec fn offset(self) -> u8 {
        match self {
            Controller::Primary => PIC_1_OFFSET,
            Controller::Secondary => PIC_2_OFFSET,
        }
    }

    /// Whether `vector` belongs to one of the eight lines of the controller.
    pub open spec fn handles(self, vector: u8) -> bool {
        self.offset() <= vector < self.offset() + 8
    }

    /// Whether `vector` belongs to one of the eight lines of the controller.
    pub fn handles_interrupt(self, vector: u8) -> (handled: bool)
        ensures
            handled == self.handles(vector),
    {
        let offset: u8 = match self {
            Controller::Primary => PIC_1_OFFSET,
            Controller::Secondary => PIC_2_OFFSET,
        };
        offset <= vector && vector < offset + 8
    }
}

/// The controllers that are told that `vector` has been served, in the order
/// in which they are told: none for a vector of neither controller, the
/// primary for one of its own lines, and the secondary before the primary for
/// a line of the secondary, which reaches the processor through the primary.
pub open spec fn acknowledgments(vector: u8) -> Seq<Controller> {
    if Controller::Secondary.handles(vector) {
        seq![Controller::Secondary, Controller::Primary]
    } else if Controller::Primary.handles(vector) {
        seq![Controller::Primary]
    } else {
        Seq::empty()
    }
}

/// The controllers to tell that `vector` has been served, in order.
pub fn notify_end_of_interrupt(vector: u8) -> (controllers: Vec<Controller>)
    ensures
        controllers@ == acknowledgments(vector),
{
    let mut controllers: Vec<Controller> = Vec::new();
    if Controller::Primary.handles_interrupt(vector) || Controller::Secondary.handles_interrupt(vector) {
        if Controller::Secondary.handles_interrupt(vector) {
            controllers.push(Controller::Secondary);
        }
        controllers.push(Controller::Primary);
    }
    assert(controllers@ =~= acknowledgments(vector));
    controllers
}

/// The text of the breakpoint report for the interrupted frame `frame`.
pub open spec fn breakpoint_report(frame: Seq<u8>) -> Seq<u8> {
    "EXCEPTION: BREAKPOINT\n".spec_bytes() + frame + "\n".spec_bytes()
}

/// The text of the double fault report for the interrupted frame `frame`.
pub open spec fn double_fault_report(frame: Seq<u8>) -> Seq<u8> {
    "EXCEPTION: DOUBLE FAULT\n".spec_bytes() + frame + "\n".spec_bytes()
}

/// The text of the page fault report: the address that was accessed, the
/// fault flags and the interrupted frame, each on a line of its own.
pub open spec fn page_fault_report(address: Seq<u8>, error_code: Seq<u8>, frame: Seq<u8>) -> Seq<u8> {
    "EXCEPTION: PAGE FAULT\n".spec_bytes() + "Accessed Address: ".spec_bytes() + address
        + "\n".spec_bytes() + "Error Code: ".spec_bytes() + error_code + "\n".spec_bytes() + frame
        + "\n".spec_bytes()
}

/// Reports a breakpoint with the interrupted frame; the interrupted code
/// goes on.
pub fn breakpoint_handler(writer: &mut Writer, stack_frame: &str) -> (next: Disposition)
    ensures
        final(writer)@ == old(writer)@.write_bytes(breakpoint_report(stack_frame.spec_bytes())),
        final(writer)@.wf(),
        next == Disposition::Resume,
        next == Handler::Breakpoint.disposition(),
{
    proof {
        let start = old(writer)@;
        let head = "EXCEPTION: BREAKPOINT\n".spec_bytes();
        lemma_write_bytes_concat(start, head, stack_frame.spec_bytes());
        lemma_write_bytes_concat(start, head + stack_frame.spec_bytes(), "\n".spec_bytes());
    }
    writer.write_string("EXCEPTION: BREAKPOINT\n");
    writer.write_string(stack_frame);
    writer.write_string("\n");
    Disposition::Resume
}

/// Reports a double fault with the interrupted frame; the processor is
/// parked.
pub fn double_fault_handler(writer: &mut Writer, stack_frame: &str) -> (next: Disposition)
    ensures
        final(writer)@ == old(writer)@.write_bytes(double_fault_report(stack_frame.spec_bytes())),
        final(writer)@.wf(),
        next == Disposition::Halt,
        next == Handler::DoubleFault.disposition(),
{
    proof {
        let start = old(writer)@;
        let head = "EXCEPTION: DOUBLE FAULT\n".spec_bytes();
        lemma_write_bytes_concat(start, head, stack_frame.spec_bytes());
        lemma_write_bytes_concat(start, head + stack_frame.spec_bytes(), "\n".spec_bytes());
    }
    writer.write_string("EXCEPTION: DOUBLE FAULT\n");
    writer.write_string(stack_frame);
    writer.write_string("\n");
    Disposition::Halt
}

/// Reports a page fault with the address that was accessed, the fault flags
/// and the interrupted frame; the processor is parked.
pub fn page_fault_handler(
    writer: &mut Writer,
    accessed_address: &str,
    error_code: &str,
    stack_frame: &str,
) -> (next: Disposition)
    ensures
        final(writer)@ == old(writer)@.write_bytes(
            page_fault_report(accessed_address.spec_bytes(), error_code.spec_bytes(), stack_frame.spec_bytes()),
        ),
        final(writer)@.wf(),
        next == Disposition::Halt,
        next == Handler::PageFault.disposition(),
{
    proof {
        let start = old(writer)@;
        let newline = "\n".spec_bytes();
        let t1 = "EXCEPTION: PAGE FAULT\n".spec_bytes();
        let t2 = t1 + "Accessed Address: ".spec_bytes();
        let t3 = t2 + accessed_address.spec_bytes();
        let t4 = t3 + newline;
        let t5 = t4 + "Error Code: ".spec_bytes();
        let t6 = t5 + error_code.spec_bytes();
        let t7 = t6 + newline;
        let t8 = t7 + stack_frame.spec_bytes();
        lemma_write_bytes_concat(start, t1, "Accessed Address: ".spec_bytes());
        lemma_write_bytes_concat(start, t2, accessed_address.spec_bytes());
        lemma_write_bytes_concat(start, t3, newline);
        lemma_write_bytes_concat(start, t4, "Error Code: ".spec_bytes());
        lemma_write_bytes_concat(start, t5, error_code.spec_bytes());
        lemma_write_bytes_concat(start, t6, newline);
        lemma_write_bytes_concat(start, t7, stack_frame.spec_bytes());
        lemma_write_bytes_concat(start, t8, newline);
    }
    writer.write_string("EXCEPTION: PAGE FAULT\n");
    writer.write_string("Accessed Address: ");
    writer.write_string(accessed_address);
    writer.write_string("\n");
    writer.write_string("Error Code: ");
    writer.write_string(error_code);
    writer.write_string("\n");
    writer.write_string(stack_frame);
    writer.write_string("\n");
    Disposition::Halt
}

/// Marks a tick of the timer with a dot on the console and asks for the
/// timer interrupt to be acknowledged.
pub fn timer_interrupt_handler(writer: &mut Writer) -> (next: Disposition)
    ensures
        final(writer)@ == old(writer)@.write_byte(0x2e),
        final(writer)@.wf(),
        next == Disposition::Acknowledge(InterruptIndex::Timer),
        next == Handler::Timer.disposition(),
{
    writer.write_byte(0x2e);
    Disposition::Acknowledge(InterruptIndex::Timer)
}

/// `pc_keyboard::KeyEvent`: what `add_byte` hands to `process_keyevent`.
/// It is passed on unread.
#[verifier::external_type_specification]
#[verifier::external_body]
pub struct ExKeyEvent(KeyEvent);

/// `pc_keyboard::KeyCode`: the code of a key. It is passed on unread; only
/// its name is written.
#[verifier::external_type_specification]
#[verifier::external_body]
pub struct ExKeyCode(KeyCode);

/// `pc_keyboard::Error`: why a scancode could not be decoded. It is not
/// read: a scancode that cannot be decoded shows nothing.
#[verifier::external_type_specification]
#[verifier::external_body]
pub struct ExKeyboardError(pc_keyboard::Error);

/// A decoded key: a character, or the code of a key that has none.
#[derive(Debug, Clone, Copy, PartialEq, Eq)]
pub enum Key {
    Unicode(char),
    RawKey(KeyCode),
}

/// The decode state of the keyboard, kept from one scancode to the next: a
/// `pc_keyboard::Keyboard` for the US layout with 104 keys and scancode set 1,
/// which leaves the control key alone. The verifier does not look inside:
/// the decoder is bounded by traits of `pc_keyboard`, which it cannot read.
/// The decoder is reached through `new` and `decode` only, so it is fed
/// whole bytes only and stays in the two states that scancode set 1 decodes
/// from.
#[verifier::external_body]
pub struct KeyboardSession {
    keyboard: Keyboard<Us104Key, ScancodeSet1>,
}

/// The name of a key code as `pc_keyboard::KeyCode` prints it for debugging.
pub uninterp spec fn key_code_name(code: KeyCode) -> Seq<char>;

/// What `pc_keyboard::Keyboard::add_byte` makes of a scancode: the decoder
/// as the call leaves it, and what the call gives. Both follow from the
/// decoder before the call and the scancode alone.
pub uninterp spec fn byte_added(session: KeyboardSession, byte: u8) -> (
    KeyboardSession,
    Result<Option<KeyEvent>, pc_keyboard::Error>,
);

/// What `pc_keyboard::Keyboard::process_keyevent` makes of a key event: the
/// decoder as the call leaves it, and the key that the call gives, if any.
/// Both follow from the decoder before the call, which knows the modifier
/// keys that are held, and the event alone.
pub uninterp spec fn event_processed(session: KeyboardSession, event: KeyEvent) -> (
    KeyboardSession,
    Option<Key>,
);

/// `pc_keyboard::Keyboard::new`, called with the US layout with 104 keys,
/// scancode set 1 and `HandleControl::Ignore`. Nothing is claimed of the
/// result.
#[verifier::external_body]
fn keyboard_new() -> KeyboardSession {
    KeyboardSession { keyboard: Keyboard::new(Us104Key, ScancodeSet1, HandleControl::Ignore) }
}

/// `pc_keyboard::Keyboard::add_byte`: feeds one scancode to the decoder.
/// What the call gives and what it leaves the decoder as are `byte_added`
/// of the decoder before the call and the scancode; nothing more is claimed
/// of either. For scancode set 1 the call returns from the two states that
/// a session can be in.
#[verifier::external_body]
fn keyboard_add_byte(session: &mut KeyboardSession, byte: u8) -> (outcome: Result<
    Option<KeyEvent>,
    pc_keyboard::Error,
>)
    ensures
        (*final(session), outcome) == byte_added(*old(session), byte),
{
    session.keyboard.add_byte(byte)
}

/// `pc_keyboard::Keyboard::process_keyevent`: turns a key event into a
/// decoded key, where it gives one. What the call gives and what it leaves
/// the decoder as are `event_processed` of the decoder before the call and
/// the event; nothing more is claimed of either.
#[verifier::external_body]
fn keyboard_process_keyevent(session: &mut KeyboardSession, event: KeyEvent) -> (key: Option<Key>)
    ensures
        (*final(session), key) == event_processed(*old(session), event),
{
    match session.keyboard.process_keyevent(event) {
        Some(DecodedKey::Unicode(character)) => Some(Key::Unicode(character)),
        Some(DecodedKey::RawKey(code)) => Some(Key::RawKey(code)),
        None => None,
    }
}

/// The `Debug` form of `pc_keyboard::KeyCode`: the text is the name of the
/// key code.
#[verifier::external_body]
fn key_code_debug(code: KeyCode) -> (name: String)
    ensures
        name@ == key_code_name(code),
{
    format!("{:?}", code)
}

/// `String::from` for a `char`: the text is the one character.
#[verifier::external_body]
fn char_string(character: char) -> (text: String)
    ensures
        text@ == seq![character],
{
    String::from(character)
}

impl KeyboardSession {
    /// A session that has seen no scancode yet.
    pub fn new() -> KeyboardSession {
        keyboard_new()
    }

    /// Feeds one scancode to the decoder and gives the key that it
    /// completes, if it completes one that is shown: the key event that the
    /// scancode completes is processed, and a scancode that completes none
    /// only moves the decoder on.
    pub fn decode(&mut self, scancode: u8) -> (key: Option<Key>)
        ensures
            (*final(self), key) == decoded(*old(self), scancode),
    {
        match completed_event(keyboard_add_byte(self, scancode)) {
            Some(event) => keyboard_process_keyevent(self, event),
            None => None,
        }
    }
}

/// What a session makes of a scancode: the session afterwards and the key
/// that the scancode completes, if it completes one that is shown. The
/// scancode is fed to the decoder; the key event that this completes, if
/// any, is processed by the decoder as feeding left it.
pub open spec fn decoded(session: KeyboardSession, scancode: u8) -> (KeyboardSession, Option<Key>) {
    let (fed, outcome) = byte_added(session, scancode);
    match completed(outcome) {
        Some(event) => event_processed(fed, event),
        None => (fed, None),
    }
}

/// The key event that a scancode has completed, going by what the decoder
/// made of the scancode: the event, where the decoder gave one; none where
/// the scancode only began a longer code, and none where the decoder could
/// not place it.
pub open spec fn completed(outcome: Result<Option<KeyEvent>, pc_keyboard::Error>) -> Option<KeyEvent> {
    match outcome {
        Ok(Some(event)) => Some(event),
        Ok(None) => None,
        Err(_) => None,
    }
}

/// The key event that a scancode has completed, if any, taken from what the
/// decoder made of the scancode. A scancode that the decoder could not place
/// is passed over: it shows nothing and stops nothing.
pub fn completed_event(outcome: Result<Option<KeyEvent>, pc_keyboard::Error>) -> (event: Option<KeyEvent>)
    ensures
        event == completed(outcome),
{
    match outcome {
        Ok(Some(event)) => Some(event),
        Ok(None) => None,
        Err(_) => None,
    }
}

/// The text that is written for a key: the character, or the name of the
/// key code.
pub open spec fn key_text(key: Key) -> Seq<u8> {
    match key {
        Key::Unicode(character) => encode_utf8(seq![character]),
        Key::RawKey(code) => encode_utf8(key_code_name(code)),
    }
}

/// The console after a keyboard interrupt that decoded `key`.
pub open spec fn key_shown(screen: Screen, key: Option<Key>) -> Screen {
    match key {
        Some(key) => screen.write_bytes(key_text(key)),
        None => screen,
    }
}

/// Writes the text of `key` to the console.
pub fn print_key(writer: &mut Writer, key: &Key)
    ensures
        final(writer)@ == old(writer)@.write_bytes(key_text(*key)),
        final(writer)@.wf(),
{
    match key {
        Key::Unicode(character) => {
            let text = char_string(*character);
            writer.write_string(text.as_str());
        },
        Key::RawKey(code) => {
            let name = key_code_debug(*code);
            writer.write_string(name.as_str());
        },
    }
}

/// Shows on the console what a keyboard interrupt decoded, if anything.
pub fn show_key(writer: &mut Writer, key: &Option<Key>)
    ensures
        final(writer)@ == key_shown(old(writer)@, *key),
        final(writer)@.wf(),
{
    match key {
        Some(key) => print_key(writer, key),
        None => {
            proof {
                writer.lemma_view_wf();
            }
        },
    }
}

/// Feeds the scancode that the keyboard sent to the decoder, writes the key
/// that it completes, if any, to the console, and asks for the keyboard
/// interrupt to be acknowledged, whether a key was completed or not.
pub fn keyboard_interrupt_handler(session: &mut KeyboardSession, writer: &mut Writer, scancode: u8) -> (next: Disposition)
    ensures
        *final(session) == decoded(*old(session), scancode).0,
        final(writer)@ == key_shown(old(writer)@, decoded(*old(session), scancode).1),
        final(writer)@.wf(),
        next == Disposition::Acknowledge(InterruptIndex::Keyboard),
        next == Handler::Keyboard.disposition(),
{
    let key = session.decode(scancode);
    show_key(writer, &key);
    Disposition::Acknowledge(InterruptIndex::Keyboard)
}

/// An interrupt on a line of the primary controller is acknowledged once,
/// to the primary alone; one on a line of the secondary is acknowledged to
/// both, the secondary first; any other vector is acknowledged to neither.
/// The timer and the keyboard are lines of the primary.
pub proof fn lemma_acknowledgment_order(vector: u8)
    ensures
        Controller::Primary.handles(vector) ==> acknowledgments(vector) == seq![Controller::Primary],
        Controller::Secondary.handles(vector) ==> acknowledgments(vector) == seq![
            Controller::Secondary,
            Controller::Primary,
        ],
        !Controller::Primary.handles(vector) && !Controller::Secondary.handles(vector) ==> acknowledgments(vector)
            == Seq::<Controller>::empty(),
        acknowledgments(InterruptIndex::Timer.vector()) == seq![Controller::Primary],
        acknowledgments(InterruptIndex::Keyboard.vector()) == seq![Controller::Primary],
{
}

/// The lines of the two controllers lie side by side above the vectors of
/// the processor's exceptions, and no vector belongs to both.
pub proof fn lemma_controller_ranges(vector: u8)
    ensures
        PIC_1_OFFSET >= EXCEPTION_COUNT,
        PIC_2_OFFSET == PIC_1_OFFSET + 8,
        !(Controller::Primary.handles(vector) && Controller::Secondary.handles(vector)),
        vector < EXCEPTION_COUNT ==> !Controller::Primary.handles(vector) && !Controller::Secondary.handles(vector),
{
}

/// In the table that `init_idt` builds the double fault is bound, on its
/// alternate stack, and is the only vector with a stack of its own; a
/// handler that asks for an acknowledgment is bound to the vector that it
/// acknowledges, which is a line of the primary controller; and every other
/// handler is bound to the vector of an exception.
pub proof fn lemma_installed_table(double_fault_stack: u16)
    ensures
        installed_table(double_fault_stack).len() == VECTOR_COUNT,
        installed_table(double_fault_stack)[DOUBLE_FAULT_VECTOR as int] == Some(
            Entry { handler: Handler::DoubleFault, stack_index: Some(double_fault_stack) },
        ),
        forall|vector: int|
            0 <= vector < VECTOR_COUNT && vector != DOUBLE_FAULT_VECTOR ==> match #[trigger] installed_table(
                double_fault_stack,
            )[vector] {
                Some(entry) => entry.stack_index is None,
                None => true,
            },
        forall|vector: int|
            0 <= vector < VECTOR_COUNT ==> match #[trigger] installed_table(double_fault_stack)[vector] {
                Some(entry) => match entry.handler.disposition() {
                    Disposition::Acknowledge(index) => vector == index.vector() && Controller::Primary.handles(
                        index.vector(),
                    ),
                    _ => vector < EXCEPTION_COUNT,
                },
                None => true,
            },
{
}

} // verus!
