//! The serial hand-off protocol: announce, handshake, take a little-endian
//! 32-bit length and that many payload bytes, then hand over to the payload.
//!
//! Wire format: the loader sends three `0x03` bytes; the peer sends four
//! length bytes, lowest first; the loader answers `OK`; the peer sends the
//! payload. There is no checksum and no bound on the length: the peer is
//! trusted. Each received byte is stored at the load address plus its index.
use vstd::prelude::*;
use crate::console::{Statistics, Read, Write, All, bytes_of, write_str};
use crate::mmio::le_u32;

verus! {

/// The banner printed before the handshake.
pub const MINILOAD_LOGO: &'static str = "\n __  __ _      _ _                 _\n|  \\/  (_)_ _ (_) |   ___  __ _ __| |\n| |\\/| | | ' \\| | |__/ _ \\/ _` / _` |\n|_|  |_|_|_||_|_|____\\___/\\__,_\\__,_|\n";

/// Width of the line the board name is centred in.
pub const NAME_WIDTH: usize = 37;

pub const REQUEST_TEXT: &'static str = "\n[ML] Requesting binary\n";

pub const LOADED_TEXT: &'static str = "[ML] Loaded! Executing the payload now\n\n";

/// The byte that tells the peer to start sending.
pub const READY_BYTE: u8 = 3;

/// The stages of a transfer.
#[derive(Clone, Copy, Debug, PartialEq, Eq, Structural)]
pub enum Phase {
    Announce,
    Handshake,
    AwaitSize,
    ReceivePayload,
    Execute,
}

/// `n` spaces.
pub open spec fn spaces(n: nat) -> Seq<char> {
    Seq::new(n, |i: int| ' ')
}

/// `name` centred in a line of `NAME_WIDTH`, the odd space on the right.
pub open spec fn centred(name: Seq<char>) -> Seq<char> {
    if name.len() >= NAME_WIDTH {
        name
    } else {
        let pad = (NAME_WIDTH - name.len()) as nat;
        spaces(pad / 2) + name + spaces((pad - pad / 2) as nat)
    }
}

/// Everything the announcement prints.
pub open spec fn announce_text(name: Seq<char>) -> Seq<char> {
    MINILOAD_LOGO@ + seq!['\n'] + centred(name) + seq!['\n'] + REQUEST_TEXT@
}

/// The lengths of the texts the loader prints: the banner, the request
/// line and the closing line, and the board name padded to its line.
pub proof fn lemma_text_lengths(name: Seq<char>)
    ensures
        MINILOAD_LOGO@.len() == 152,
        REQUEST_TEXT@.len() == 24,
        LOADED_TEXT@.len() == 40,
        centred(name).len() == (if name.len() >= NAME_WIDTH {
            name.len()
        } else {
            NAME_WIDTH as nat
        }),
        announce_text(name).len() == 178 + centred(name).len(),
{
    reveal_strlit("\n __  __ _      _ _                 _\n|  \\/  (_)_ _ (_) |   ___  __ _ __| |\n| |\\/| | | ' \\| | |__/ _ \\/ _` / _` |\n|_|  |_|_|_||_|_|____\\___/\\__,_\\__,_|\n");
    reveal_strlit("\n[ML] Requesting binary\n");
    reveal_strlit("[ML] Loaded! Executing the payload now\n\n");
}

/// The handshake's bytes.
pub open spec fn ready_bytes() -> Seq<u8> {
    seq![READY_BYTE, READY_BYTE, READY_BYTE]
}

/// The acknowledgement of the length.
pub open spec fn ok_bytes() -> Seq<u8> {
    seq!['O' as u8, 'K' as u8]
}

/// The payload length a stream of protocol bytes announces.
pub open spec fn announced_len(received: Seq<u8>) -> nat {
    le_u32(received, 0) as nat
}

/// Whether `received` holds the length and the whole payload.
pub open spec fn complete(received: Seq<u8>) -> bool {
    received.len() >= 4 && received.len() == 4 + announced_len(received)
}

/// A transfer in progress.
pub struct Loader {
    phase: Phase,
    /// The length bytes received so far.
    size_bytes: Vec<u8>,
    size: u32,
    /// The payload, as stored at the load address plus its index.
    image: Vec<u8>,
    load_addr: usize,
}

impl Loader {
    pub closed spec fn stage(&self) -> Phase {
        self.phase
    }

    /// Every protocol byte received since the handshake, in order.
    pub closed spec fn received(&self) -> Seq<u8> {
        self.size_bytes@ + self.image@
    }

    /// The bytes stored at the load address so far.
    pub closed spec fn loaded(&self) -> Seq<u8> {
        self.image@
    }

    pub closed spec fn entry(&self) -> usize {
        self.load_addr
    }

    pub closed spec fn wf(&self) -> bool {
        &&& self.size_bytes@.len() <= 4
        &&& (self.size_bytes@.len() < 4 ==> self.image@.len() == 0)
        &&& (self.size_bytes@.len() == 4 ==> self.size == le_u32(self.size_bytes@, 0)
            && self.image@.len() <= self.size)
        &&& (self.phase == Phase::Announce || self.phase == Phase::Handshake)
            ==> self.size_bytes@.len() == 0
        &&& self.phase == Phase::AwaitSize ==> self.size_bytes@.len() < 4
        &&& self.phase == Phase::ReceivePayload ==> self.size_bytes@.len() == 4
            && self.image@.len() < self.size
        &&& self.phase == Phase::Execute ==> self.size_bytes@.len() == 4 && self.image@.len()
            == self.size
    }

    /// A transfer that will load to and enter `load_addr`.
    pub fn new(load_addr: usize) -> (r: Self)
        ensures
            r.wf(),
            r.stage() == Phase::Announce,
            r.received() == Seq::<u8>::empty(),
            r.loaded() == Seq::<u8>::empty(),
            r.entry() == load_addr,
    {
        Loader { phase: Phase::Announce, size_bytes: Vec::new(), size: 0, image: Vec::new(), load_addr }
    }

    pub fn phase(&self) -> (r: Phase)
        ensures
            r == self.stage(),
    {
        self.phase
    }

    /// The bytes stored at the load address so far.
    pub fn image(&self) -> (r: &Vec<u8>)
        ensures
            r@ == self.loaded(),
    {
        &self.image
    }
}

/// What a console's output is after it writes `text`.
pub open spec fn after_text(inert: bool, out: Seq<u8>, text: Seq<char>) -> Seq<u8> {
    if inert {
        out
    } else {
        out + bytes_of(text)
    }
}

/// What a console's write counter is after it writes `n` characters.
pub open spec fn after_count(inert: bool, count: nat, n: nat) -> nat {
    if inert {
        count
    } else {
        count + n
    }
}

proof fn lemma_bytes_of_concat(a: Seq<char>, b: Seq<char>)
    ensures
        bytes_of(a + b) == bytes_of(a) + bytes_of(b),
{
    assert(bytes_of(a + b) =~= bytes_of(a) + bytes_of(b));
}

/// Writes `n` spaces.
fn write_spaces<C: Write>(con: &mut C, n: usize)
    requires
        old(con).console_wf(),
        !old(con).echoes(),
        old(con).inert() || old(con).written_count() + n <= usize::MAX,
    ensures
        final(con).console_wf(),
        final(con).target() == old(con).target(),
        final(con).inert() == old(con).inert(),
        !final(con).echoes(),
        final(con).output() == after_text(old(con).inert(), old(con).output(), spaces(n as nat)),
        final(con).written_count() == after_count(old(con).inert(), old(con).written_count(), n as nat),
        final(con).pending() == old(con).pending(),
        final(con).read_count() == old(con).read_count(),
{
    let mut i: usize = 0;
    while i < n
        invariant
            i <= n,
            con.console_wf(),
            con.target() == old(con).target(),
            !con.echoes(),
            con.inert() == old(con).inert(),
            old(con).inert() || old(con).written_count() + n <= usize::MAX,
            con.output() == after_text(old(con).inert(), old(con).output(), spaces(i as nat)),
            con.written_count() == after_count(old(con).inert(), old(con).written_count(), i as nat),
            con.pending() == old(con).pending(),
            con.read_count() == old(con).read_count(),
        decreases n - i,
    {
        con.write_char(' ');
        proof {
            assert(spaces((i + 1) as nat) =~= spaces(i as nat).push(' '));
            assert(bytes_of(spaces((i + 1) as nat)) =~= bytes_of(spaces(i as nat)).push(' ' as u8));
        }
        i = i + 1;
    }
}

impl Loader {
    /// Prints the banner, the board name centred, and the request line,
    /// then flushes.
    pub fn announce<C: Write>(&mut self, con: &mut C, name: &str)
        requires
            old(self).wf(),
            old(self).stage() == Phase::Announce,
            old(con).console_wf(),
            !old(con).echoes(),
            old(con).inert() || old(con).written_count() + announce_text(name@).len() <= usize::MAX,
        ensures
            final(self).wf(),
            final(self).stage() == Phase::Handshake,
            final(self).received() == old(self).received(),
            final(self).entry() == old(self).entry(),
            final(con).console_wf(),
        final(con).target() == old(con).target(),
            final(con).target() == old(con).target(),
            final(con).inert() == old(con).inert(),
            !final(con).echoes(),
            final(con).output() == after_text(old(con).inert(), old(con).output(), announce_text(name@)),
            final(con).written_count() == after_count(
                old(con).inert(),
                old(con).written_count(),
                announce_text(name@).len(),
            ),
            final(con).pending() == old(con).pending(),
            final(con).read_count() == old(con).read_count(),
    {
        let ghost out0 = con.output();
        let ghost n0 = con.written_count();
        let ghost inert = con.inert();
        let ghost logo = MINILOAD_LOGO@;
        let ghost nl = seq!['\n'];
        let ghost mid = centred(name@);
        write_str(con, MINILOAD_LOGO);
        con.write_char('\n');
        proof {
            lemma_bytes_of_concat(logo, nl);
            assert(bytes_of(nl) =~= seq!['\n' as u8]);
            assert(con.output() == after_text(inert, out0, logo + nl)) by {
                if !inert {
                    assert(out0 + bytes_of(logo) + seq!['\n' as u8] =~= out0 + bytes_of(logo + nl));
                }
            }
        }
        let len = name.unicode_len();
        if len >= NAME_WIDTH {
            write_str(con, name);
        } else {
            let pad = NAME_WIDTH - len;
            write_spaces(con, pad / 2);
            write_str(con, name);
            write_spaces(con, pad - pad / 2);
            proof {
                let a = spaces((pad / 2) as nat);
                let c = spaces((pad - pad / 2) as nat);
                lemma_bytes_of_concat(a, name@);
                lemma_bytes_of_concat(a + name@, c);
                lemma_bytes_of_concat(logo + nl, a + name@ + c);
                if !inert {
                    assert(out0 + bytes_of(logo + nl) + bytes_of(a) + bytes_of(name@) + bytes_of(c)
                        =~= out0 + bytes_of(logo + nl + mid));
                }
            }
        }
        proof {
            lemma_bytes_of_concat(logo + nl, mid);
            if !inert && len >= NAME_WIDTH {
                assert(out0 + bytes_of(logo + nl) + bytes_of(name@) =~= out0 + bytes_of(logo + nl + mid));
            }
            assert(con.output() == after_text(inert, out0, logo + nl + mid));
        }
        con.write_char('\n');
        write_str(con, REQUEST_TEXT);
        con.flush();
        proof {
            lemma_bytes_of_concat(logo + nl + mid, nl);
            lemma_bytes_of_concat(logo + nl + mid + nl, REQUEST_TEXT@);
            assert(bytes_of(nl) =~= seq!['\n' as u8]);
            if !inert {
                assert(out0 + bytes_of(logo + nl + mid) + seq!['\n' as u8] + bytes_of(REQUEST_TEXT@)
                    =~= out0 + bytes_of(announce_text(name@)));
            }
        }
        self.phase = Phase::Handshake;
    }
}

/// What a console's output is after it puts out `bytes`.
pub open spec fn after_bytes(inert: bool, out: Seq<u8>, bytes: Seq<u8>) -> Seq<u8> {
    if inert {
        out
    } else {
        out + bytes
    }
}

/// What the loader answers while its received stream grows from `before`
/// to `after`: `OK` once the length is in, and the closing line once the
/// payload is complete.
pub open spec fn replies(before: Seq<u8>, after: Seq<u8>) -> Seq<u8> {
    (if before.len() < 4 && after.len() >= 4 {
        ok_bytes()
    } else {
        Seq::empty()
    }) + (if complete(after) {
        bytes_of(LOADED_TEXT@)
    } else {
        Seq::empty()
    })
}

/// The payload part of a received stream.
pub open spec fn payload(received: Seq<u8>) -> Seq<u8> {
    if received.len() >= 4 {
        received.skip(4)
    } else {
        Seq::empty()
    }
}

proof fn lemma_announced(sb: Seq<u8>, img: Seq<u8>)
    requires
        sb.len() == 4,
    ensures
        announced_len(sb + img) == le_u32(sb, 0) as nat,
        payload(sb + img) == img,
{
    let r = sb + img;
    assert(r[0] == sb[0]);
    assert(r[1] == sb[1]);
    assert(r[2] == sb[2]);
    assert(r[3] == sb[3]);
    assert(r.skip(4) =~= img);
}

/// A peer that sends four length bytes, lowest first, and then exactly
/// that many payload bytes gives a stream that completes only at its last
/// byte; the loader's answers over it are `OK` and then the closing line,
/// and what it stores at the load address is the payload, verbatim and in
/// order.
pub proof fn lemma_length_prefixed(len_bytes: Seq<u8>, body: Seq<u8>)
    requires
        len_bytes.len() == 4,
        le_u32(len_bytes, 0) as nat == body.len(),
    ensures
        complete(len_bytes + body),
        payload(len_bytes + body) == body,
        forall|j: int| 0 <= j < (len_bytes + body).len() ==> !complete(#[trigger] (len_bytes + body).take(j)),
        replies(Seq::empty(), len_bytes + body) == ok_bytes() + bytes_of(LOADED_TEXT@),
{
    let s = len_bytes + body;
    lemma_announced(len_bytes, body);
    assert forall|j: int| 0 <= j < s.len() implies !complete(#[trigger] s.take(j)) by {
        if j >= 4 {
            let t = s.take(j);
            assert(t[0] == s[0] && t[1] == s[1] && t[2] == s[2] && t[3] == s[3]);
            assert(announced_len(t) == announced_len(s));
        }
    }
    assert(replies(Seq::empty(), s) =~= ok_bytes() + bytes_of(LOADED_TEXT@));
}

impl Loader {
    /// The payload stored so far is the received stream after its length.
    pub proof fn lemma_loaded_is_payload(&self)
        requires
            self.wf(),
        ensures
            self.loaded() == payload(self.received()),
            self.stage() == Phase::Execute <==> complete(self.received()),
            self.received().len() >= 4 ==> self.loaded().len() <= announced_len(self.received()),
    {
        if self.size_bytes@.len() == 4 {
            lemma_announced(self.size_bytes@, self.image@);
        } else {
            assert(self.received() =~= self.size_bytes@);
        }
    }

    /// Discards stale input, then sends the three ready bytes.
    pub fn handshake<C: All>(&mut self, con: &mut C)
        requires
            old(self).wf(),
            old(self).stage() == Phase::Handshake,
            old(con).console_wf(),
            !old(con).echoes(),
            old(con).inert() || old(con).written_count() + 3 <= usize::MAX,
        ensures
            final(self).wf(),
            final(self).stage() == Phase::AwaitSize,
            final(self).received() == old(self).received(),
            final(self).entry() == old(self).entry(),
            final(con).console_wf(),
        final(con).target() == old(con).target(),
            final(con).target() == old(con).target(),
            final(con).inert() == old(con).inert(),
            !final(con).echoes(),
            final(con).output() == after_bytes(old(con).inert(), old(con).output(), ready_bytes()),
            final(con).written_count() == after_count(old(con).inert(), old(con).written_count(), 3),
            final(con).pending() == Seq::<u8>::empty(),
            final(con).read_count() == old(con).read_count() + old(con).pending().len(),
    {
        con.clear_rx();
        let ready = READY_BYTE as char;
        con.write_char(ready);
        con.write_char(ready);
        con.write_char(ready);
        proof {
            if !con.inert() {
                assert(con.output() =~= old(con).output() + ready_bytes());
            }
        }
        self.phase = Phase::AwaitSize;
    }

    /// Takes one protocol byte; answers `OK` when it completes the length,
    /// and the closing line when it completes the payload.
    fn accept<C: Write>(&mut self, con: &mut C, b: u8)
        requires
            old(self).wf(),
            old(self).stage() == Phase::AwaitSize || old(self).stage() == Phase::ReceivePayload,
            old(con).console_wf(),
            !old(con).echoes(),
            old(con).inert() || old(con).written_count() + replies(
                old(self).received(),
                old(self).received().push(b),
            ).len() <= usize::MAX,
        ensures
            final(self).wf(),
            final(self).received() == old(self).received().push(b),
            final(self).entry() == old(self).entry(),
            final(con).console_wf(),
        final(con).target() == old(con).target(),
            final(con).target() == old(con).target(),
            final(con).inert() == old(con).inert(),
            !final(con).echoes(),
            final(con).output() == after_bytes(
                old(con).inert(),
                old(con).output(),
                replies(old(self).received(), final(self).received()),
            ),
            final(con).written_count() == after_count(
                old(con).inert(),
                old(con).written_count(),
                replies(old(self).received(), final(self).received()).len(),
            ),
            final(con).pending() == old(con).pending(),
            final(con).read_count() == old(con).read_count(),
    {
        let ghost r0 = self.received();
        let ghost out0 = con.output();
        let ghost inert = con.inert();
        proof {
            self.lemma_loaded_is_payload();
            reveal_strlit("[ML] Loaded! Executing the payload now\n\n");
        }
        if self.size_bytes.len() < 4 {
            self.size_bytes.push(b);
            proof {
                assert(self.image@ =~= Seq::<u8>::empty());
                assert(self.received() =~= r0.push(b));
            }
            if self.size_bytes.len() == 4 {
                let sb0 = self.size_bytes[0];
                let sb1 = self.size_bytes[1];
                let sb2 = self.size_bytes[2];
                let sb3 = self.size_bytes[3];
                self.size = (sb0 as u32) | ((sb1 as u32) << 8u32) | ((sb2 as u32) << 16u32) | ((sb3 as u32) << 24u32);
                con.write_char('O');
                con.write_char('K');
                proof {
                    lemma_announced(self.size_bytes@, self.image@);
                }
                if self.size == 0 {
                    self.phase = Phase::Execute;
                    write_str(con, LOADED_TEXT);
                    con.flush();
                } else {
                    self.phase = Phase::ReceivePayload;
                }
            } else {
                self.phase = Phase::AwaitSize;
            }
        } else {
            self.image.push(b);
            proof {
                assert(self.received() =~= r0.push(b));
                lemma_announced(self.size_bytes@, self.image@);
            }
            if self.image.len() == self.size as usize {
                self.phase = Phase::Execute;
                write_str(con, LOADED_TEXT);
                con.flush();
            }
        }
        proof {
            self.lemma_loaded_is_payload();
            let rep = replies(r0, self.received());
            if !inert {
                assert(con.output() =~= out0 + rep);
            }
        }
    }
}

/// The answers over two consecutive stretches of the stream add up, as
/// long as the first stretch does not complete it.
proof fn lemma_replies_split(r0: Seq<u8>, r1: Seq<u8>, r2: Seq<u8>)
    requires
        r0.len() <= r1.len() <= r2.len(),
        !complete(r1),
    ensures
        replies(r0, r2) == replies(r0, r1) + replies(r1, r2),
{
    assert(replies(r0, r2) =~= replies(r0, r1) + replies(r1, r2));
}

impl Loader {
    /// Reads protocol bytes while the console has them and the payload is
    /// not complete. Returns the entry address once the whole payload is
    /// stored; `None` while the peer still owes bytes (the hardware would
    /// wait here for them).
    pub fn receive<C: All>(&mut self, con: &mut C) -> (r: Option<usize>)
        requires
            old(self).wf(),
            old(self).stage() == Phase::AwaitSize || old(self).stage() == Phase::ReceivePayload,
            old(con).console_wf(),
            !old(con).echoes(),
            old(con).inert() || old(con).written_count() + 2 + LOADED_TEXT@.len() <= usize::MAX,
        ensures
            final(self).wf(),
            final(self).entry() == old(self).entry(),
            ({
                let k = final(self).received().len() - old(self).received().len();
                &&& 0 <= k <= old(con).pending().len()
                &&& final(self).received() == old(self).received() + old(con).pending().take(k)
                &&& final(con).pending() == old(con).pending().skip(k)
                &&& final(con).read_count() == old(con).read_count() + k
            }),
            complete(final(self).received()) || final(con).pending().len() == 0,
            r == (if complete(final(self).received()) {
                Some(old(self).entry())
            } else {
                None::<usize>
            }),
            final(self).stage() == Phase::Execute <==> complete(final(self).received()),
            final(self).loaded() == payload(final(self).received()),
            final(con).console_wf(),
        final(con).target() == old(con).target(),
            final(con).target() == old(con).target(),
            final(con).inert() == old(con).inert(),
            !final(con).echoes(),
            final(con).output() == after_bytes(
                old(con).inert(),
                old(con).output(),
                replies(old(self).received(), final(self).received()),
            ),
            final(con).written_count() == after_count(
                old(con).inert(),
                old(con).written_count(),
                replies(old(self).received(), final(self).received()).len(),
            ),
    {
        let ghost r0 = self.received();
        let ghost in0 = con.pending();
        let ghost out0 = con.output();
        let ghost n0 = con.written_count();
        let ghost rc0 = con.read_count();
        let ghost inert = con.inert();
        proof {
            self.lemma_loaded_is_payload();
            reveal_strlit("[ML] Loaded! Executing the payload now\n\n");
            assert(in0.take(0) =~= Seq::<u8>::empty());
            assert(r0 + in0.take(0) =~= r0);
            assert(in0.skip(0) =~= in0);
            assert(replies(r0, r0) =~= Seq::<u8>::empty());
            assert(after_bytes(inert, out0, Seq::<u8>::empty()) =~= out0);
        }
        while self.phase != Phase::Execute
            invariant
                self.wf(),
                self.entry() == old(self).entry(),
                r0 == old(self).received(),
                in0 == old(con).pending(),
                out0 == old(con).output(),
                n0 == old(con).written_count(),
                rc0 == old(con).read_count(),
                inert == old(con).inert(),
                self.stage() == Phase::AwaitSize || self.stage() == Phase::ReceivePayload
                    || self.stage() == Phase::Execute,
                r0.len() <= self.received().len() <= r0.len() + in0.len(),
                self.received() == r0 + in0.take(self.received().len() - r0.len()),
                con.pending() == in0.skip(self.received().len() - r0.len()),
                con.read_count() == rc0 + (self.received().len() - r0.len()),
                !complete(r0),
                con.console_wf(),
                con.target() == old(con).target(),
            con.target() == old(con).target(),
                con.inert() == inert,
                !con.echoes(),
                inert || n0 + 2 + LOADED_TEXT@.len() <= usize::MAX,
                con.output() == after_bytes(inert, out0, replies(r0, self.received())),
                con.written_count() == after_count(inert, n0, replies(r0, self.received()).len()),
            decreases con.pending().len(),
        {
            let ghost rb = self.received();
            let ghost k = rb.len() - r0.len();
            proof {
                self.lemma_loaded_is_payload();
            }
            match con.read_char() {
                None => {
                    return None;
                },
                Some(c) => {
                    let b = c as u32 as u8;
                    proof {
                        assert(b == in0[k]);
                        lemma_replies_split(r0, rb, rb.push(b));
                        assert(replies(r0, rb.push(b)).len() <= 2 + LOADED_TEXT@.len());
                    }
                    self.accept(con, b);
                    proof {
                        assert(in0.take(k + 1) =~= in0.take(k).push(b));
                        assert(self.received() =~= r0 + in0.take(k + 1));
                        assert(con.pending() =~= in0.skip(k + 1));
                        if !inert {
                            assert(con.output() =~= out0 + replies(r0, self.received()));
                        }
                    }
                },
            }
        }
        proof {
            self.lemma_loaded_is_payload();
        }
        Some(self.load_addr)
    }
}

} // verus!
