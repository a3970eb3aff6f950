//! The console capabilities, the inert console, and the registry cell that
//! holds the active console.
use vstd::prelude::*;
use vstd::string::StrSliceExecFns;
use crate::sync::NullLock;

verus! {

/// The bytes that a console puts out for the characters `s`: the low byte
/// of each.
pub open spec fn bytes_of(s: Seq<char>) -> Seq<u8> {
    s.map_values(|c: char| c as u8)
}

/// What a console has done: monotonic counters of the characters written
/// and read, and the state those counters describe.
pub trait Statistics {
    /// The console's internal invariant.
    spec fn console_wf(&self) -> bool;

    /// The bytes this console has put out, in order.
    spec fn output(&self) -> Seq<u8>;

    /// The bytes received and not yet read.
    spec fn pending(&self) -> Seq<u8>;

    /// Whether the console throws its output away uncounted.
    spec fn inert(&self) -> bool;

    /// Whether each byte put out also arrives at the input.
    spec fn echoes(&self) -> bool;

    /// Which device the console works through. No console operation
    /// changes it.
    spec fn target(&self) -> nat;

    spec fn written_count(&self) -> nat;

    spec fn read_count(&self) -> nat;

    fn chars_written(&self) -> (r: usize)
        requires
            self.console_wf(),
        ensures
            r == self.written_count(),
    ;

    fn chars_read(&self) -> (r: usize)
        requires
            self.console_wf(),
        ensures
            r == self.read_count(),
    ;
}

/// Reading characters from the console's input.
pub trait Read: Statistics {
    /// Takes the next received character, or `None` when nothing is there
    /// and nothing more can arrive before the caller acts.
    fn read_char(&mut self) -> (r: Option<char>)
        requires
            old(self).console_wf(),
        ensures
            final(self).console_wf(),
            final(self).target() == old(self).target(),
            old(self).pending().len() > 0 ==> r == Some(old(self).pending()[0] as char)
                && final(self).pending() == old(self).pending().drop_first() && final(self).read_count() == old(self).read_count() + 1,
            old(self).pending().len() == 0 ==> r == None::<char> && final(self).pending()
                == old(self).pending() && final(self).read_count() == old(self).read_count(),
            final(self).written_count() == old(self).written_count(),
            final(self).output() == old(self).output(),
            final(self).inert() == old(self).inert(),
            final(self).echoes() == old(self).echoes(),
    ;

    /// Discards everything received and not yet read.
    fn clear_rx(&mut self)
        requires
            old(self).console_wf(),
        ensures
            final(self).console_wf(),
            final(self).target() == old(self).target(),
            final(self).pending() == Seq::<u8>::empty(),
            final(self).read_count() == old(self).read_count() + old(self).pending().len(),
            final(self).written_count() == old(self).written_count(),
            final(self).output() == old(self).output(),
            final(self).inert() == old(self).inert(),
            final(self).echoes() == old(self).echoes(),
    ;
}

/// Writing characters to the console's output.
pub trait Write: Statistics {
    /// Puts out the character's low byte and counts it.
    fn write_char(&mut self, c: char)
        requires
            old(self).console_wf(),
            old(self).inert() || old(self).written_count() < usize::MAX,
        ensures
            final(self).console_wf(),
            final(self).target() == old(self).target(),
            final(self).inert() == old(self).inert(),
            final(self).echoes() == old(self).echoes(),
            final(self).output() == (if old(self).inert() {
                old(self).output()
            } else {
                old(self).output().push(c as u8)
            }),
            final(self).written_count() == (if old(self).inert() {
                old(self).written_count()
            } else {
                old(self).written_count() + 1
            }),
            final(self).pending() == (if old(self).echoes() {
                old(self).pending().push(c as u8)
            } else {
                old(self).pending()
            }),
            final(self).read_count() == old(self).read_count(),
    ;

    /// Waits until everything put out has left the hardware.
    fn flush(&mut self)
        requires
            old(self).console_wf(),
        ensures
            final(self).console_wf(),
            final(self).target() == old(self).target(),
            final(self).inert() == old(self).inert(),
            final(self).echoes() == old(self).echoes(),
            final(self).output() == old(self).output(),
            final(self).pending() == old(self).pending(),
            final(self).written_count() == old(self).written_count(),
            final(self).read_count() == old(self).read_count(),
    ;
}

/// A console with every capability.
pub trait All: Write + Read + Statistics {

}

/// Writes each character of `s` in turn.
pub fn write_str<W: Write>(w: &mut W, s: &str)
    requires
        old(w).console_wf(),
        old(w).inert() || old(w).written_count() + s@.len() <= usize::MAX,
    ensures
        final(w).console_wf(),
        final(w).target() == old(w).target(),
        final(w).inert() == old(w).inert(),
        final(w).echoes() == old(w).echoes(),
        final(w).output() == (if old(w).inert() {
            old(w).output()
        } else {
            old(w).output() + bytes_of(s@)
        }),
        final(w).written_count() == (if old(w).inert() {
            old(w).written_count()
        } else {
            old(w).written_count() + s@.len()
        }),
        final(w).pending() == (if old(w).echoes() {
            old(w).pending() + bytes_of(s@)
        } else {
            old(w).pending()
        }),
        final(w).read_count() == old(w).read_count(),
{
    let n = s.unicode_len();
    let mut i: usize = 0;
    while i < n
        invariant
            n == s@.len(),
            i <= n,
            w.console_wf(),
            w.target() == old(w).target(),
            w.echoes() == old(w).echoes(),
            w.inert() == old(w).inert(),
            old(w).inert() || old(w).written_count() + s@.len() <= usize::MAX,
            w.output() == (if old(w).inert() {
                old(w).output()
            } else {
                old(w).output() + bytes_of(s@.subrange(0, i as int))
            }),
            w.written_count() == (if old(w).inert() {
                old(w).written_count()
            } else {
                old(w).written_count() + i as nat
            }),
            w.pending() == (if old(w).echoes() {
                old(w).pending() + bytes_of(s@.subrange(0, i as int))
            } else {
                old(w).pending()
            }),
            w.read_count() == old(w).read_count(),
        decreases n - i,
    {
        let c = s.get_char(i);
        w.write_char(c);
        proof {
            assert(s@.subrange(0, i + 1) == s@.subrange(0, i as int).push(c));
            assert(bytes_of(s@.subrange(0, i + 1)) == bytes_of(s@.subrange(0, i as int)).push(
                c as u8,
            ));
            if old(w).echoes() {
                assert(w.pending() =~= old(w).pending() + bytes_of(s@.subrange(0, i + 1)));
            }
            if !old(w).inert() {
                assert(w.output() =~= old(w).output() + bytes_of(s@.subrange(0, i + 1)));
            }
        }
        i = i + 1;
    }
    proof {
        assert(s@.subrange(0, n as int) == s@);
    }
}

/// The console active before any driver exists: it drops what is written,
/// never has input, and counts nothing.
pub struct NullConsole {}

impl Statistics for NullConsole {
    open spec fn console_wf(&self) -> bool {
        true
    }

    open spec fn output(&self) -> Seq<u8> {
        Seq::empty()
    }

    open spec fn pending(&self) -> Seq<u8> {
        Seq::empty()
    }

    open spec fn inert(&self) -> bool {
        true
    }

    open spec fn echoes(&self) -> bool {
        false
    }

    open spec fn target(&self) -> nat {
        0
    }

    open spec fn written_count(&self) -> nat {
        0
    }

    open spec fn read_count(&self) -> nat {
        0
    }

    fn chars_written(&self) -> (r: usize) {
        0
    }

    fn chars_read(&self) -> (r: usize) {
        0
    }
}

impl Read for NullConsole {
    fn read_char(&mut self) -> (r: Option<char>) {
        None
    }

    fn clear_rx(&mut self) {
    }
}

impl Write for NullConsole {
    fn write_char(&mut self, c: char) {
    }

    fn flush(&mut self) {
    }
}

impl All for NullConsole {

}

/// The consoles a board can make active.
#[derive(Clone, Copy, Debug, PartialEq, Eq, Structural)]
pub enum ConsoleId {
    /// The inert console.
    Null,
    /// The early output console of the board support.
    Qemu,
    /// The PL011 UART.
    Uart,
}

/// The process-wide cell holding the active console. It is never empty: it
/// starts out holding the inert console.
pub struct ConsoleRegistry {
    current: NullLock<ConsoleId>,
}

impl ConsoleRegistry {
    pub closed spec fn active(&self) -> ConsoleId {
        self.current.value()
    }

    pub fn new() -> (r: Self)
        ensures
            r.active() == ConsoleId::Null,
    {
        ConsoleRegistry { current: NullLock::new(ConsoleId::Null) }
    }
}

/// The active console.
pub fn console(registry: &ConsoleRegistry) -> (r: ConsoleId)
    ensures
        r == registry.active(),
{
    *registry.current.read()
}

/// Makes `new_console` the active console, replacing the one before.
pub fn register_console(registry: &mut ConsoleRegistry, new_console: ConsoleId)
    ensures
        final(registry).active() == new_console,
{
    let con = registry.current.lock();
    *con = new_console;
}

} // verus!
