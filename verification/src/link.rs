//! Byte links to the control box: what does not touch a device.
use vstd::prelude::*;
use vstd::slice::{slice_subrange, slice_to_vec};

verus! {

/// Accessory character device.
pub const AOA_DEFAULT_PATH: &'static str = "/dev/usb_accessory";

/// Packet that configures the accessory, written once and in one piece when the
/// device is opened.
pub const AOA_CONFIG_PACKET: [u8; 8] = [0x00, 0xE1, 0x00, 0x00, 0x08, 0x01, 0x00, 0x00];

/// Greatest number of payload bytes in one write to the accessory.
pub const AOA_MAX_CHUNK: usize = 63;

/// Pause between two chunks, in milliseconds.
pub const AOA_INTER_CHUNK_DELAY_MS: u64 = 1;

/// Serial character device.
pub const TTY_DEFAULT_PATH: &'static str = "/dev/ttyUSB0";

/// Serial speed.
pub const TTY_BAUD: u32 = 57_600;

/// How to open the accessory.
#[derive(Debug, Clone, Copy, PartialEq, Eq, Structural)]
pub struct AoaOpenOptions {
    /// Greatest number of payload bytes in one write.
    pub max_chunk: usize,
    /// Pause between two chunks (not after the last), in milliseconds.
    pub inter_chunk_delay_ms: u64,
}

impl Default for AoaOpenOptions {
    fn default() -> (r: AoaOpenOptions)
        ensures
            r.max_chunk == AOA_MAX_CHUNK,
            r.inter_chunk_delay_ms == AOA_INTER_CHUNK_DELAY_MS,
    {
        AoaOpenOptions {
            max_chunk: AOA_MAX_CHUNK,
            inter_chunk_delay_ms: AOA_INTER_CHUNK_DELAY_MS,
        }
    }
}

/// How to open the serial line.
#[derive(Debug, Clone, Copy, PartialEq, Eq, Structural)]
pub struct TtyOpenOptions {
    /// Speed in both directions.
    pub baud: u32,
}

impl Default for TtyOpenOptions {
    fn default() -> (r: TtyOpenOptions)
        ensures
            r.baud == TTY_BAUD,
    {
        TtyOpenOptions { baud: TTY_BAUD }
    }
}

/// Bytes on their way out over a line that takes a part of them at a time.
pub struct Outgoing {
    data: Vec<u8>,
    sent: usize,
}

/// What to do with bytes that are on their way out.
#[derive(Debug, Clone, Copy, PartialEq, Eq, Structural)]
pub enum OutgoingStep {
    /// Write what is left.
    Write,
    /// All bytes are out.
    Done,
    /// The line takes nothing more.
    Stalled,
}

impl Outgoing {
    /// All bytes.
    pub closed spec fn all(self) -> Seq<u8> {
        self.data@
    }

    /// How many of them are out.
    pub closed spec fn gone(self) -> int {
        self.sent as int
    }

    #[verifier::type_invariant]
    spec fn within(self) -> bool {
        self.sent <= self.data@.len()
    }

    /// Bytes none of which are out.
    pub fn new(data: &[u8]) -> (out: Outgoing)
        ensures
            out.all() == data@,
            out.gone() == 0,
    {
        Outgoing { data: slice_to_vec(data), sent: 0 }
    }

    /// What to do first: without bytes nothing is written.
    pub fn step(&self) -> (step: OutgoingStep)
        ensures
            0 <= self.gone() <= self.all().len(),
            step == if self.gone() < self.all().len() {
                OutgoingStep::Write
            } else {
                OutgoingStep::Done
            },
    {
        proof {
            use_type_invariant(self);
        }
        if self.sent < self.data.len() {
            OutgoingStep::Write
        } else {
            OutgoingStep::Done
        }
    }

    /// The bytes that are left.
    pub fn rest(&self) -> (r: &[u8])
        ensures
            r@ == self.all().skip(self.gone()),
    {
        proof {
            use_type_invariant(self);
        }
        let r = slice_subrange(self.data.as_slice(), self.sent, self.data.len());
        proof {
            assert(r@ =~= self.data@.skip(self.sent as int));
        }
        r
    }

    /// Takes note that the line took `n` bytes, at most those that were left. A line
    /// that takes none is stalled.
    pub fn on_written(&mut self, n: usize) -> (step: OutgoingStep)
        ensures
            final(self).all() == old(self).all(),
            final(self).gone() == if old(self).gone() + n <= old(self).all().len() {
                old(self).gone() + n
            } else {
                old(self).all().len() as int
            },
            final(self).gone() >= old(self).gone(),
            final(self).gone() - old(self).gone() <= n,
            final(self).gone() - old(self).gone() < n ==> final(self).gone()
                == final(self).all().len(),
            step == if n == 0 {
                OutgoingStep::Stalled
            } else if final(self).gone() < final(self).all().len() {
                OutgoingStep::Write
            } else {
                OutgoingStep::Done
            },
    {
        proof {
            use_type_invariant(&*self);
        }
        let left: usize = self.data.len() - self.sent;
        self.sent = if n <= left {
            self.sent + n
        } else {
            self.data.len()
        };
        if n == 0 {
            OutgoingStep::Stalled
        } else if self.sent < self.data.len() {
            OutgoingStep::Write
        } else {
            OutgoingStep::Done
        }
    }
}

/// The bits of a terminal's modes that matter on a serial line, as the system
/// defines them.
#[derive(Debug, Clone, Copy, PartialEq, Eq, Structural)]
pub struct LineBits {
    /// All bits that tell the size of a character.
    pub size: u32,
    /// Among them, those of eight bits.
    pub eight: u32,
    /// Parity.
    pub parity: u32,
    /// Two stop bits.
    pub two_stops: u32,
    /// Flow control by lines.
    pub line_flow: u32,
    /// Receiver.
    pub receiver: u32,
    /// No regard for modem lines.
    pub local: u32,
    /// Flow control by characters: of output, of input, and restart by any.
    pub character_flow: u32,
}

/// Control modes of a line with eight data bits, no parity and one stop bit,
/// without flow control: the receiver is on, modem lines do not count, and what
/// does not concern these stays as it was.
pub fn control_modes(modes: u32, bits: &LineBits) -> (r: u32)
    ensures
        r == (modes & !(bits.size | bits.parity | bits.two_stops | bits.line_flow)) | (bits.eight
            | bits.receiver | bits.local),
        r & !(bits.size | bits.parity | bits.two_stops | bits.line_flow | bits.eight
            | bits.receiver | bits.local) == modes & !(bits.size | bits.parity | bits.two_stops
            | bits.line_flow | bits.eight | bits.receiver | bits.local),
        bits.eight & bits.size == bits.eight && (bits.size | bits.parity | bits.two_stops
            | bits.line_flow) & (bits.receiver | bits.local) == 0 && bits.size & (bits.parity
            | bits.two_stops | bits.line_flow) == 0 ==> {
            &&& r & bits.size == bits.eight
            &&& r & bits.parity == 0
            &&& r & bits.two_stops == 0
            &&& r & bits.line_flow == 0
            &&& r & bits.receiver == bits.receiver
            &&& r & bits.local == bits.local
        },
{
    proof {
        let LineBits { size, eight, parity, two_stops, line_flow, receiver, local, .. } = *bits;
        assert(((modes & !(size | parity | two_stops | line_flow)) | (eight | receiver | local))
            & !(size | parity | two_stops | line_flow | eight | receiver | local) == modes & !(
        size | parity | two_stops | line_flow | eight | receiver | local)) by (bit_vector);
        if eight & size == eight && (size | parity | two_stops | line_flow) & (receiver | local)
            == 0 && size & (parity | two_stops | line_flow) == 0 {
            law_line_is_8n1(modes, *bits);
        }
    }
    (modes & !(bits.size | bits.parity | bits.two_stops | bits.line_flow)) | (bits.eight
        | bits.receiver | bits.local)
}

/// Input modes of a line without flow control by characters.
pub fn input_modes(modes: u32, bits: &LineBits) -> (r: u32)
    ensures
        r == modes & !bits.character_flow,
        r & bits.character_flow == 0,
        r | (modes & bits.character_flow) == modes,
{
    proof {
        let flow = bits.character_flow;
        assert((modes & !flow) & flow == 0) by (bit_vector);
        assert((modes & !flow) | (modes & flow) == modes) by (bit_vector);
    }
    modes & !bits.character_flow
}

/// Where the bits of the modes do not overlap, a line is set to eight data bits,
/// no parity and one stop bit, with its receiver on and without flow control,
/// whatever it was set to before.
pub proof fn law_line_is_8n1(modes: u32, bits: LineBits)
    requires
        bits.eight & bits.size == bits.eight,
        (bits.size | bits.parity | bits.two_stops | bits.line_flow) & (bits.receiver | bits.local)
            == 0,
        bits.size & (bits.parity | bits.two_stops | bits.line_flow) == 0,
    ensures
        ({
            let set = (modes & !(bits.size | bits.parity | bits.two_stops | bits.line_flow)) | (
            bits.eight | bits.receiver | bits.local);
            &&& set & bits.size == bits.eight
            &&& set & bits.parity == 0
            &&& set & bits.two_stops == 0
            &&& set & bits.line_flow == 0
            &&& set & bits.receiver == bits.receiver
            &&& set & bits.local == bits.local
        }),
        (modes & !bits.character_flow) & bits.character_flow == 0,
{
    let LineBits { size, eight, parity, two_stops, line_flow, receiver, local, character_flow } =
        bits;
    assert({
        let set = (modes & !(size | parity | two_stops | line_flow)) | (eight | receiver | local);
        &&& set & size == eight
        &&& set & parity == 0
        &&& set & two_stops == 0
        &&& set & line_flow == 0
        &&& set & receiver == receiver
        &&& set & local == local
    }) by (bit_vector)
        requires
            eight & size == eight,
            (size | parity | two_stops | line_flow) & (receiver | local) == 0,
            size & (parity | two_stops | line_flow) == 0,
    ;
    assert((modes & !character_flow) & character_flow == 0) by (bit_vector);
}

/// The pieces of `data` of at most `n` bytes, each but the last full.
pub open spec fn chunks(data: Seq<u8>, n: nat) -> Seq<Seq<u8>>
    decreases data.len(),
{
    if data.len() == 0 || n == 0 {
        seq![]
    } else if data.len() <= n {
        seq![data]
    } else {
        seq![data.take(n as int)] + chunks(data.skip(n as int), n)
    }
}

/// The size of a chunk that was asked for: never zero.
pub open spec fn chunk_size(max_chunk: usize) -> nat {
    if max_chunk == 0 {
        1
    } else {
        max_chunk as nat
    }
}

/// What a list of byte lists holds.
pub open spec fn byte_lists(list: Seq<Vec<u8>>) -> Seq<Seq<u8>> {
    list.map_values(|v: Vec<u8>| v@)
}

/// Cuts a write to the accessory into the pieces that it is sent in.
pub fn split_chunks(data: &[u8], max_chunk: usize) -> (out: Vec<Vec<u8>>)
    ensures
        byte_lists(out@) == chunks(data@, chunk_size(max_chunk)),
{
    let size: usize = if max_chunk == 0 {
        1
    } else {
        max_chunk
    };
    let ghost n = chunk_size(max_chunk);
    let mut out: Vec<Vec<u8>> = Vec::new();
    let mut offset: usize = 0;
    proof {
        assert(data@.skip(0) =~= data@);
        assert(byte_lists(out@) + chunks(data@, n) =~= chunks(data@, n));
    }
    while offset < data.len()
        invariant
            offset <= data@.len(),
            size == n,
            n > 0,
            byte_lists(out@) + chunks(data@.skip(offset as int), n) == chunks(data@, n),
        decreases data@.len() - offset,
    {
        let left: usize = data.len() - offset;
        let end: usize = if left <= size {
            data.len()
        } else {
            offset + size
        };
        let piece = slice_to_vec(slice_subrange(data, offset, end));
        let ghost rest = data@.skip(offset as int);
        let ghost before = out@;
        proof {
            assert(piece@ =~= rest.take(end - offset));
            assert(rest.skip(end - offset) =~= data@.skip(end as int));
            if left <= size {
                assert(rest.take(end - offset) =~= rest);
                assert(data@.skip(end as int) =~= seq![]);
                assert(chunks(rest, n) =~= seq![piece@] + chunks(data@.skip(end as int), n));
            }
            assert(chunks(rest, n) == seq![piece@] + chunks(data@.skip(end as int), n));
        }
        out.push(piece);
        proof {
            assert(byte_lists(out@) =~= byte_lists(before).push(piece@));
            let tail = chunks(data@.skip(end as int), n);
            assert(byte_lists(out@) + tail =~= byte_lists(before) + (seq![piece@] + tail));
        }
        offset = end;
    }
    proof {
        assert(data@.skip(offset as int) =~= seq![]);
        assert(byte_lists(out@) + Seq::<Seq<u8>>::empty() =~= byte_lists(out@));
    }
    out
}

/// One step of a write to the accessory.
#[derive(Debug, Clone, PartialEq, Eq)]
pub enum AoaStep {
    /// Write the bytes in one piece.
    Write(Vec<u8>),
    /// Pause for the delay between two chunks.
    Pause,
}

/// What a step of a write does.
pub ghost enum StepModel {
    Write(Seq<u8>),
    Pause,
}

impl View for AoaStep {
    type V = StepModel;

    open spec fn view(&self) -> StepModel {
        match *self {
            AoaStep::Write(bytes) => StepModel::Write(bytes@),
            AoaStep::Pause => StepModel::Pause,
        }
    }
}

/// What a list of steps does.
pub open spec fn steps_model(steps: Seq<AoaStep>) -> Seq<StepModel> {
    steps.map_values(|s: AoaStep| s@)
}

/// The steps that write the pieces, with a pause between two of them.
pub open spec fn paced(pieces: Seq<Seq<u8>>) -> Seq<StepModel>
    decreases pieces.len(),
{
    if pieces.len() == 0 {
        seq![]
    } else if pieces.len() == 1 {
        seq![StepModel::Write(pieces[0])]
    } else {
        paced(pieces.drop_last()).push(StepModel::Pause).push(StepModel::Write(pieces.last()))
    }
}

/// The steps of a write to the accessory, in order. The first step that fails
/// ends the write.
pub fn write_steps(data: &[u8], max_chunk: usize) -> (steps: Vec<AoaStep>)
    ensures
        steps_model(steps@) == paced(chunks(data@, chunk_size(max_chunk))),
{
    let mut rest = split_chunks(data, max_chunk);
    let ghost all = byte_lists(rest@);
    let mut steps: Vec<AoaStep> = Vec::new();
    let ghost mut done: int = 0;
    proof {
        assert(steps_model(steps@) =~= paced(all.take(0)));
        assert(all.skip(0) =~= all);
    }
    while rest.len() > 0
        invariant
            0 <= done <= all.len(),
            steps.len() == 0 <==> done == 0,
            byte_lists(rest@) == all.skip(done),
            steps_model(steps@) == paced(all.take(done)),
        decreases rest@.len(),
    {
        let ghost left = rest@;
        let ghost before = steps@;
        proof {
            assert(byte_lists(left).len() == left.len());
            assert(all.take(done + 1).drop_last() =~= all.take(done));
        }
        if steps.len() > 0 {
            steps.push(AoaStep::Pause);
        }
        let piece = rest.remove(0);
        proof {
            assert(piece@ == byte_lists(left)[0]);
            assert(all.take(done + 1).last() == piece@);
            assert forall|i: int| 0 <= i < rest@.len() implies byte_lists(rest@)[i] == all.skip(
                done + 1,
            )[i] by {
                assert(rest@[i] == left[i + 1]);
                assert(byte_lists(left)[i + 1] == all.skip(done)[i + 1]);
            }
            assert(byte_lists(rest@) =~= all.skip(done + 1));
        }
        let ghost bytes = piece@;
        steps.push(AoaStep::Write(piece));
        proof {
            if done == 0 {
                assert(steps_model(steps@) =~= seq![StepModel::Write(bytes)]);
            } else {
                assert(steps_model(steps@) =~= steps_model(before).push(StepModel::Pause).push(
                    StepModel::Write(bytes),
                ));
            }
            done = done + 1;
        }
    }
    proof {
        assert(byte_lists(rest@).len() == 0);
        assert(all.take(done) =~= all);
    }
    steps
}

/// All the bytes of a list of pieces.
pub open spec fn flattened(list: Seq<Seq<u8>>) -> Seq<u8>
    decreases list.len(),
{
    if list.len() == 0 {
        seq![]
    } else {
        list[0] + flattened(list.drop_first())
    }
}

/// Cutting a write loses nothing: the pieces together are the data, none is
/// empty or too long, and all but the last are full.
pub proof fn law_chunks(data: Seq<u8>, n: nat)
    requires
        n > 0,
    ensures
        flattened(chunks(data, n)) == data,
        forall|i: int|
            0 <= i < chunks(data, n).len() ==> 0 < (#[trigger] chunks(data, n)[i]).len() <= n,
        forall|i: int|
            0 <= i < chunks(data, n).len() - 1 ==> (#[trigger] chunks(data, n)[i]).len() == n,
    decreases data.len(),
{
    let list = chunks(data, n);
    if data.len() == 0 {
        assert(data =~= seq![]);
    } else if data.len() <= n {
        assert(list[0] == data);
        assert(list.drop_first() =~= Seq::<Seq<u8>>::empty());
        assert(flattened(Seq::<Seq<u8>>::empty()) =~= Seq::<u8>::empty());
        assert(data + Seq::<u8>::empty() =~= data);
    } else {
        let rest = data.skip(n as int);
        law_chunks(rest, n);
        let more = chunks(rest, n);
        assert(list.drop_first() =~= more);
        assert(data.take(n as int) + rest =~= data);
        assert(more.len() > 0);
        assert forall|i: int| 0 <= i < list.len() implies 0 < (#[trigger] list[i]).len() <= n by {
            if i > 0 {
                assert(list[i] == more[i - 1]);
            }
        }
        assert forall|i: int| 0 <= i < list.len() - 1 implies (#[trigger] list[i]).len() == n by {
            if i > 0 {
                assert(list[i] == more[i - 1]);
            }
        }
    }
}

/// The pieces of a write are the data, cut every `n` bytes.
pub proof fn law_pieces_are_cut_in_order(data: Seq<u8>, n: nat, i: int)
    requires
        n > 0,
        0 <= i,
        i * n < data.len(),
    ensures
        i < chunks(data, n).len(),
        chunks(data, n)[i] == data.subrange(
            i * n,
            if i * n + n <= data.len() {
                i * n + n
            } else {
                data.len() as int
            },
        ),
        i * n + n >= data.len() ==> chunks(data, n).len() == i + 1,
    decreases data.len(),
{
    if data.len() <= n {
        assert(i == 0) by (nonlinear_arith)
            requires
                i >= 0,
                i * n < data.len(),
                data.len() <= n,
        ;
        assert(data.subrange(0, data.len() as int) =~= data);
    } else if i == 0 {
        assert(data.take(n as int) =~= data.subrange(0, n as int));
    } else {
        let rest = data.skip(n as int);
        let k = i - 1;
        assert(k * n + n == i * n) by (nonlinear_arith)
            requires
                k == i - 1,
        ;
        law_pieces_are_cut_in_order(rest, n, k);
        let end = if k * n + n <= rest.len() {
            k * n + n
        } else {
            rest.len() as int
        };
        assert(0 <= k * n) by (nonlinear_arith)
            requires
                k >= 0,
                n > 0,
        ;
        assert(rest.subrange(k * n, end) =~= data.subrange(k * n + n, end + n));
    }
}

/// A chunk has the greatest permitted size, and never less than one byte.
pub proof fn law_size_of_a_chunk(max_chunk: usize)
    ensures
        max_chunk > 0 ==> chunk_size(max_chunk) == max_chunk,
        chunk_size(0) == 1,
{
}

/// The pieces are written in order, with one pause between two of them, and none
/// before the first or after the last.
pub proof fn law_pauses_stand_between_pieces(pieces: Seq<Seq<u8>>, i: int)
    requires
        0 <= i < pieces.len(),
    ensures
        paced(pieces).len() == 2 * pieces.len() - 1,
        paced(pieces)[2 * i] == StepModel::Write(pieces[i]),
        i > 0 ==> paced(pieces)[2 * i - 1] == StepModel::Pause,
    decreases pieces.len(),
{
    if pieces.len() > 1 {
        let init = pieces.drop_last();
        if i < init.len() {
            law_pauses_stand_between_pieces(init, i);
            assert(init[i] == pieces[i]);
        } else {
            law_pauses_stand_between_pieces(init, 0);
        }
    }
}

/// I/O on a link that is closed.
#[derive(Debug, Clone, Copy, PartialEq, Eq, Structural)]
pub struct LinkClosed;

/// Link in memory: bytes to read are scripted, bytes written are captured.
#[derive(Debug)]
pub struct MockLink {
    inbound: Vec<u8>,
    outbound: Vec<u8>,
    closed: bool,
}

impl MockLink {
    /// Bytes that are still to be read.
    pub closed spec fn inbound(&self) -> Seq<u8> {
        self.inbound@
    }

    /// Bytes that were written and not taken.
    pub closed spec fn outbound(&self) -> Seq<u8> {
        self.outbound@
    }

    /// Whether the link is closed.
    pub closed spec fn is_closed(&self) -> bool {
        self.closed
    }

    /// A link without scripted bytes.
    pub fn new() -> (r: MockLink)
        ensures
            r.inbound() == Seq::<u8>::empty(),
            r.outbound() == Seq::<u8>::empty(),
            !r.is_closed(),
    {
        MockLink { inbound: Vec::new(), outbound: Vec::new(), closed: false }
    }

    /// A link with scripted bytes.
    pub fn with_inbound(bytes: Vec<u8>) -> (r: MockLink)
        ensures
            r.inbound() == bytes@,
            r.outbound() == Seq::<u8>::empty(),
            !r.is_closed(),
    {
        MockLink { inbound: bytes, outbound: Vec::new(), closed: false }
    }

    /// Adds bytes to the script.
    pub fn push_inbound(&mut self, data: &[u8])
        ensures
            final(self).inbound() == old(self).inbound() + data@,
            final(self).outbound() == old(self).outbound(),
            final(self).is_closed() == old(self).is_closed(),
    {
        self.inbound.extend_from_slice(data);
        proof {
            assert(self.inbound@ =~= old(self).inbound@ + data@);
        }
    }

    /// Bytes written so far.
    pub fn written(&self) -> (r: &[u8])
        ensures
            r@ == self.outbound(),
    {
        self.outbound.as_slice()
    }

    /// Takes the bytes written so far.
    pub fn take_written(&mut self) -> (r: Vec<u8>)
        ensures
            r@ == old(self).outbound(),
            final(self).outbound() == Seq::<u8>::empty(),
            final(self).inbound() == old(self).inbound(),
            final(self).is_closed() == old(self).is_closed(),
    {
        let mut taken: Vec<u8> = Vec::new();
        std::mem::swap(&mut taken, &mut self.outbound);
        taken
    }

    /// Reads at most `max` scripted bytes; none are left when none come.
    pub fn read(&mut self, max: usize) -> (r: Result<Vec<u8>, LinkClosed>)
        ensures
            r is Err == old(self).is_closed(),
            final(self).is_closed() == old(self).is_closed(),
            final(self).outbound() == old(self).outbound(),
            match r {
                Ok(bytes) => bytes@.len() == (if max <= old(self).inbound().len() {
                    max as nat
                } else {
                    old(self).inbound().len()
                }) && old(self).inbound() == bytes@ + final(self).inbound(),
                Err(_) => final(self).inbound() == old(self).inbound(),
            },
    {
        if self.closed {
            return Err(LinkClosed);
        }
        let n: usize = if max <= self.inbound.len() {
            max
        } else {
            self.inbound.len()
        };
        let rest = self.inbound.split_off(n);
        let mut head = rest;
        std::mem::swap(&mut head, &mut self.inbound);
        proof {
            assert(old(self).inbound@ =~= head@ + self.inbound@);
        }
        Ok(head)
    }

    /// Captures `data`.
    pub fn write_all(&mut self, data: &[u8]) -> (r: Result<(), LinkClosed>)
        ensures
            r is Err == old(self).is_closed(),
            final(self).is_closed() == old(self).is_closed(),
            final(self).inbound() == old(self).inbound(),
            final(self).outbound() == if r is Ok {
                old(self).outbound() + data@
            } else {
                old(self).outbound()
            },
    {
        if self.closed {
            return Err(LinkClosed);
        }
        self.outbound.extend_from_slice(data);
        proof {
            assert(self.outbound@ =~= old(self).outbound@ + data@);
        }
        Ok(())
    }

    /// Closes the link; closing it again changes nothing.
    pub fn close(&mut self)
        ensures
            final(self).is_closed(),
            final(self).inbound() == old(self).inbound(),
            final(self).outbound() == old(self).outbound(),
    {
        self.closed = true;
    }
}

} // verus!
