//! A model of Open Sound Control messages and packets, held as plain values:
//! decoding received datagrams (through rosc), flattening bundles into
//! messages, and the messages that open a session with the DAW.
use vstd::prelude::*;

verus! {

/// The IEEE-754 single-precision bit pattern of a value that travels as a
/// 32-bit float.
pub type FloatBits = u32;

/// The IEEE-754 double-precision bit pattern of a value that travels as a
/// 64-bit float.
pub type DoubleBits = u64;

/// The number of tracks that the controller mirrors and addresses.
pub const TRACK_COUNT: usize = 8;

/// Whether the float with bit pattern `b` compares unequal to `0.0`: every
/// value but `+0.0` and `-0.0` does, NaN included.
pub open spec fn float_is_nonzero(b: FloatBits) -> bool {
    b & 0x7fff_ffffu32 != 0
}

/// A float compares unequal to `0.0` exactly when its bit pattern is
/// neither that of `+0.0` nor that of `-0.0`.
pub proof fn lemma_float_is_nonzero_bits(v: FloatBits)
    ensures
        float_is_nonzero(v) == (v != 0u32 && v != 0x8000_0000u32),
{
    assert((v & 0x7fff_ffffu32 != 0) == (v != 0u32 && v != 0x8000_0000u32)) by (bit_vector);
}

/// Computes `float_is_nonzero`.
pub fn is_nonzero(b: FloatBits) -> (r: bool)
    ensures
        r == float_is_nonzero(b),
{
    b & 0x7fff_ffffu32 != 0
}

/// An OSC time tag: seconds since 1900 and a binary fraction of a second.
#[derive(Clone, Copy, Debug, PartialEq, Eq, Structural)]
pub struct OscTime {
    pub seconds: u32,
    pub fractional: u32,
}

/// An OSC RGBA color argument.
#[derive(Clone, Copy, Debug, PartialEq, Eq, Structural)]
pub struct OscColor {
    pub red: u8,
    pub green: u8,
    pub blue: u8,
    pub alpha: u8,
}

/// An OSC MIDI message argument.
#[derive(Clone, Copy, Debug, PartialEq, Eq, Structural)]
pub struct OscMidiMessage {
    pub port: u8,
    pub status: u8,
    pub data1: u8,
    pub data2: u8,
}

/// One OSC argument. Floats are held by their bit patterns.
#[derive(Debug, PartialEq)]
pub enum OscArg {
    Int(i32),
    Float(FloatBits),
    String(String),
    Blob(Vec<u8>),
    Time(OscTime),
    Long(i64),
    Double(DoubleBits),
    Char(char),
    Color(OscColor),
    Midi(OscMidiMessage),
    Bool(bool),
    Array(Vec<OscArg>),
    Nil,
    Inf,
}

/// The mathematical value of an `OscArg`.
pub enum OscArgView {
    Int(i32),
    Float(FloatBits),
    String(Seq<char>),
    Blob(Seq<u8>),
    Time(OscTime),
    Long(i64),
    Double(DoubleBits),
    Char(char),
    Color(OscColor),
    Midi(OscMidiMessage),
    Bool(bool),
    Array(Seq<OscArgView>),
    Nil,
    Inf,
}

/// The value of an argument, arrays taken element by element.
pub open spec fn arg_view(a: OscArg) -> OscArgView
    decreases a,
{
    match a {
        OscArg::Int(v) => OscArgView::Int(v),
        OscArg::Float(v) => OscArgView::Float(v),
        OscArg::String(s) => OscArgView::String(s@),
        OscArg::Blob(b) => OscArgView::Blob(b@),
        OscArg::Time(t) => OscArgView::Time(t),
        OscArg::Long(v) => OscArgView::Long(v),
        OscArg::Double(v) => OscArgView::Double(v),
        OscArg::Char(c) => OscArgView::Char(c),
        OscArg::Color(c) => OscArgView::Color(c),
        OscArg::Midi(m) => OscArgView::Midi(m),
        OscArg::Bool(b) => OscArgView::Bool(b),
        OscArg::Array(v) => OscArgView::Array(arg_list_view(v@)),
        OscArg::Nil => OscArgView::Nil,
        OscArg::Inf => OscArgView::Inf,
    }
}

/// The values of a list of arguments, in order.
pub open spec fn arg_list_view(s: Seq<OscArg>) -> Seq<OscArgView>
    decreases s,
{
    if s.len() == 0 {
        Seq::empty()
    } else {
        seq![arg_view(s[0])] + arg_list_view(s.drop_first())
    }
}

impl View for OscArg {
    type V = OscArgView;

    open spec fn view(&self) -> OscArgView {
        arg_view(*self)
    }
}

/// The values of a list of arguments.
pub open spec fn args_view(args: Seq<OscArg>) -> Seq<OscArgView> {
    args.map_values(|a: OscArg| a@)
}

/// `arg_list_view` takes each argument's value in turn.
pub proof fn lemma_arg_list_view(s: Seq<OscArg>)
    ensures
        arg_list_view(s) == args_view(s),
    decreases s.len(),
{
    if s.len() > 0 {
        lemma_arg_list_view(s.drop_first());
        assert(arg_list_view(s) =~= args_view(s));
    } else {
        assert(arg_list_view(s) =~= args_view(s));
    }
}

/// Copies an argument, arrays element by element.
fn copy_arg(a: &OscArg) -> (r: OscArg)
    ensures
        r@ == a@,
    decreases a,
{
    match a {
        OscArg::Int(v) => OscArg::Int(*v),
        OscArg::Float(v) => OscArg::Float(*v),
        OscArg::String(s) => OscArg::String(s.clone()),
        OscArg::Blob(b) => {
            let c = b.clone();
            assert(c@ =~= b@);
            OscArg::Blob(c)
        },
        OscArg::Time(t) => OscArg::Time(*t),
        OscArg::Long(v) => OscArg::Long(*v),
        OscArg::Double(v) => OscArg::Double(*v),
        OscArg::Char(c) => OscArg::Char(*c),
        OscArg::Color(c) => OscArg::Color(*c),
        OscArg::Midi(m) => OscArg::Midi(*m),
        OscArg::Bool(b) => OscArg::Bool(*b),
        OscArg::Array(v) => {
            assert(decreases_to!(*a => (*a)->Array_0));
            let c = clone_args(v);
            proof {
                lemma_arg_list_view(c@);
                lemma_arg_list_view(v@);
            }
            OscArg::Array(c)
        },
        OscArg::Nil => OscArg::Nil,
        OscArg::Inf => OscArg::Inf,
    }
}

impl Clone for OscArg {
    fn clone(&self) -> (r: Self)
        ensures
            r@ == self@,
    {
        copy_arg(self)
    }
}

/// Copies a list of arguments.
pub fn clone_args(args: &Vec<OscArg>) -> (r: Vec<OscArg>)
    ensures
        args_view(r@) == args_view(args@),
    decreases args,
{
    let mut out: Vec<OscArg> = Vec::new();
    for i in 0..args.len()
        invariant
            args_view(out@) == args_view(args@.take(i as int)),
    {
        let ghost before = out@;
        assert(decreases_to!(*args => args@));
        assert(decreases_to!(args@ => args@[i as int]));
        let c = copy_arg(&args[i]);
        assert(c@ == args@[i as int]@);
        out.push(c);
        assert(out@ == before.push(c));
        assert(args_view(out@) =~= args_view(args@.take(i as int)).push(c@));
        assert(args_view(out@) =~= args_view(args@.take(i + 1)));
    }
    assert(args@.take(args.len() as int) =~= args@);
    out
}

/// An OSC message: an address pattern and its arguments.
#[derive(Debug, PartialEq)]
pub struct OscMessage {
    pub addr: String,
    pub args: Vec<OscArg>,
}

/// The mathematical value of an `OscMessage`.
pub struct OscMessageView {
    pub addr: Seq<char>,
    pub args: Seq<OscArgView>,
}

impl View for OscMessage {
    type V = OscMessageView;

    open spec fn view(&self) -> OscMessageView {
        OscMessageView { addr: self.addr@, args: args_view(self.args@) }
    }
}

impl Clone for OscMessage {
    fn clone(&self) -> (r: Self)
        ensures
            r@ == self@,
    {
        OscMessage { addr: self.addr.clone(), args: clone_args(&self.args) }
    }
}

/// The values of a list of messages.
pub open spec fn messages_view(msgs: Seq<OscMessage>) -> Seq<OscMessageView> {
    msgs.map_values(|m: OscMessage| m@)
}

/// An OSC bundle: a time tag and the packets it holds.
#[derive(Debug, PartialEq)]
pub struct Bundle {
    pub timetag: OscTime,
    pub content: Vec<Packet>,
}

/// An OSC packet: one message, or a bundle of packets.
#[derive(Debug, PartialEq)]
pub enum Packet {
    Message(OscMessage),
    Bundle(Bundle),
}

/// The messages that a packet carries, in the order in which they stand in
/// it, bundles opened recursively.
pub open spec fn packet_messages(p: Packet) -> Seq<OscMessageView>
    decreases p,
{
    match p {
        Packet::Message(m) => seq![m@],
        Packet::Bundle(b) => packets_messages(b.content@),
    }
}

/// The messages that a list of packets carries, in order.
pub open spec fn packets_messages(ps: Seq<Packet>) -> Seq<OscMessageView>
    decreases ps,
{
    if ps.len() == 0 {
        Seq::empty()
    } else {
        packet_messages(ps[0]) + packets_messages(ps.drop_first())
    }
}

/// The mathematical value of a `Packet`.
pub enum PacketView {
    Message(OscMessageView),
    Bundle(OscTime, Seq<PacketView>),
}

/// The value of a packet, bundles taken packet by packet.
pub open spec fn packet_view(p: Packet) -> PacketView
    decreases p,
{
    match p {
        Packet::Message(m) => PacketView::Message(m@),
        Packet::Bundle(b) => PacketView::Bundle(b.timetag, packet_list_view(b.content@)),
    }
}

/// The values of a list of packets, in order.
pub open spec fn packet_list_view(ps: Seq<Packet>) -> Seq<PacketView>
    decreases ps,
{
    if ps.len() == 0 {
        Seq::empty()
    } else {
        seq![packet_view(ps[0])] + packet_list_view(ps.drop_first())
    }
}

impl View for Packet {
    type V = PacketView;

    open spec fn view(&self) -> PacketView {
        packet_view(*self)
    }
}

/// The messages that a packet value carries, in the order in which they
/// stand in it, bundles opened recursively.
pub open spec fn view_messages(p: PacketView) -> Seq<OscMessageView>
    decreases p,
{
    match p {
        PacketView::Message(m) => seq![m],
        PacketView::Bundle(_, content) => views_messages(content),
    }
}

/// The messages that a list of packet values carries, in order.
pub open spec fn views_messages(ps: Seq<PacketView>) -> Seq<OscMessageView>
    decreases ps,
{
    if ps.len() == 0 {
        Seq::empty()
    } else {
        view_messages(ps[0]) + views_messages(ps.drop_first())
    }
}

/// A packet's messages are those of its value.
pub proof fn lemma_packet_messages_of_view(p: Packet)
    ensures
        packet_messages(p) == view_messages(p@),
    decreases p,
{
    match p {
        Packet::Message(m) => {},
        Packet::Bundle(b) => {
            assert(decreases_to!(p => p->Bundle_0));
            lemma_packets_messages_of_views(b.content@);
        },
    }
}

/// A list of packets carries the messages of their values.
pub proof fn lemma_packets_messages_of_views(ps: Seq<Packet>)
    ensures
        packets_messages(ps) == views_messages(packet_list_view(ps)),
    decreases ps,
{
    if ps.len() > 0 {
        let vs = packet_list_view(ps);
        assert(vs[0] == packet_view(ps[0]));
        assert(vs.drop_first() =~= packet_list_view(ps.drop_first()));
        lemma_packet_messages_of_view(ps[0]);
        lemma_packets_messages_of_views(ps.drop_first());
    }
}

/// Appending a packet appends its messages.
pub proof fn lemma_packets_messages_push(ps: Seq<Packet>, p: Packet)
    ensures
        packets_messages(ps.push(p)) == packets_messages(ps) + packet_messages(p),
    decreases ps.len(),
{
    if ps.len() == 0 {
        assert(ps.push(p).drop_first() =~= Seq::<Packet>::empty());
        assert(packets_messages(Seq::<Packet>::empty()) =~= Seq::<OscMessageView>::empty());
        assert(packets_messages(ps) =~= Seq::<OscMessageView>::empty());
        assert(packets_messages(ps.push(p)) =~= packet_messages(p));
    } else {
        assert(ps.push(p).drop_first() =~= ps.drop_first().push(p));
        lemma_packets_messages_push(ps.drop_first(), p);
        assert(packets_messages(ps.push(p)) =~= packets_messages(ps) + packet_messages(p));
    }
}

/// The messages that a packet carries, bundles opened recursively, in the
/// order in which they stand in the packet.
pub fn collect_messages(packet: &Packet) -> (r: Vec<OscMessage>)
    ensures
        messages_view(r@) == packet_messages(*packet),
        messages_view(r@) == view_messages(packet@),
    decreases packet,
{
    proof {
        lemma_packet_messages_of_view(*packet);
    }
    match packet {
        Packet::Message(m) => {
            let mut out: Vec<OscMessage> = Vec::new();
            out.push(m.clone());
            assert(messages_view(out@) =~= seq![m@]);
            out
        },
        Packet::Bundle(b) => {
            let mut out: Vec<OscMessage> = Vec::new();
            let n = b.content.len();
            assert(b.content@.take(0) =~= Seq::<Packet>::empty());
            for i in 0..n
                invariant
                    n == b.content@.len(),
                    *packet == Packet::Bundle(*b),
                    messages_view(out@) == packets_messages(b.content@.take(i as int)),
            {
                let ghost before = out@;
                assert(decreases_to!(*packet => (*packet)->Bundle_0));
                assert(decreases_to!(b.content => b.content@));
                let mut part = collect_messages(&b.content[i]);
                let ghost part_v = part@;
                out.append(&mut part);
                assert(b.content@.take(i + 1) =~= b.content@.take(i as int).push(b.content@[i as int]));
                proof {
                    lemma_packets_messages_push(b.content@.take(i as int), b.content@[i as int]);
                }
                assert(messages_view(out@) =~= messages_view(before) + messages_view(part_v));
            }
            assert(b.content@.take(n as int) =~= b.content@);
            out
        },
    }
}

/// A message to `addr` with the single integer argument `v`.
pub open spec fn int_message(addr: Seq<char>, v: i32) -> OscMessageView {
    OscMessageView { addr, args: seq![OscArgView::Int(v)] }
}

/// The messages that open a session with the DAW, in the order in which
/// they are sent: the number of tracks to report, then a selection of bank
/// 1, of each bank from 1 to the track count, and of bank 1 again.
pub open spec fn startup_messages_spec() -> Seq<OscMessageView> {
    seq![
        int_message("/device/track/count"@, TRACK_COUNT as i32),
        int_message("/device/track/bank/select"@, 1),
    ] + Seq::new(TRACK_COUNT as nat, |i: int| int_message("/device/track/bank/select"@, (i + 1) as i32))
        + seq![int_message("/device/track/bank/select"@, 1)]
}

/// A message to `addr` with the single integer argument `v`.
fn int_message_to(addr: &str, v: i32) -> (r: OscMessage)
    ensures
        r@ == int_message(addr@, v),
{
    let mut args: Vec<OscArg> = Vec::new();
    args.push(OscArg::Int(v));
    let r = OscMessage { addr: addr.to_owned(), args };
    assert(r@.args =~= seq![OscArgView::Int(v)]);
    r
}

/// The messages that open a session with the DAW.
pub fn startup_messages() -> (r: Vec<OscMessage>)
    ensures
        messages_view(r@) == startup_messages_spec(),
{
    let mut out: Vec<OscMessage> = Vec::new();
    out.push(int_message_to("/device/track/count", TRACK_COUNT as i32));
    out.push(int_message_to("/device/track/bank/select", 1));
    let ghost head = messages_view(out@);
    let ghost banks = Seq::new(
        TRACK_COUNT as nat,
        |i: int| int_message("/device/track/bank/select"@, (i + 1) as i32),
    );
    for bank in 1..(TRACK_COUNT + 1)
        invariant
            banks == Seq::new(
                TRACK_COUNT as nat,
                |i: int| int_message("/device/track/bank/select"@, (i + 1) as i32),
            ),
            messages_view(out@) == head + banks.take(bank - 1),
            head == seq![
                int_message("/device/track/count"@, TRACK_COUNT as i32),
                int_message("/device/track/bank/select"@, 1),
            ],
    {
        let ghost before = messages_view(out@);
        out.push(int_message_to("/device/track/bank/select", bank as i32));
        assert(messages_view(out@) =~= before.push(banks[bank - 1]));
        assert(banks.take(bank as int) =~= banks.take(bank - 1).push(banks[bank - 1]));
    }
    out.push(int_message_to("/device/track/bank/select", 1));
    assert(banks.take(TRACK_COUNT as int) =~= banks);
    assert(messages_view(out@) =~= startup_messages_spec());
    out
}

#[verifier::external_type_specification]
#[verifier::external_body]
pub struct ExRoscArg(rosc::OscType);

#[verifier::external_type_specification]
#[verifier::external_body]
pub struct ExRoscPacket(rosc::OscPacket);

/// Converts one of rosc's arguments, one for one: floats become their bit
/// patterns (`to_bits`). The arguments with inner structure are converted by
/// `structured_arg_from_rosc`; each variant is converted by exactly one of
/// the two. Nothing is claimed of it on its own; `decode_datagram` states
/// what the decoding and conversion give together.
#[verifier::external_body]
fn arg_from_rosc(arg: rosc::OscType) -> OscArg {
    match arg {
        rosc::OscType::Int(v) => OscArg::Int(v),
        rosc::OscType::Float(v) => OscArg::Float(v.to_bits()),
        rosc::OscType::String(s) => OscArg::String(s),
        rosc::OscType::Blob(b) => OscArg::Blob(b),
        rosc::OscType::Long(v) => OscArg::Long(v),
        rosc::OscType::Double(v) => OscArg::Double(v.to_bits()),
        rosc::OscType::Char(c) => OscArg::Char(c),
        rosc::OscType::Bool(b) => OscArg::Bool(b),
        rosc::OscType::Nil => OscArg::Nil,
        rosc::OscType::Inf => OscArg::Inf,
        structured => structured_arg_from_rosc(structured),
    }
}

/// Converts one of rosc's arguments with inner structure (time tag, color,
/// MIDI message, array), field by field and arrays element by element; the
/// others go to `arg_from_rosc`. Nothing is claimed of it on its own.
#[verifier::external_body]
fn structured_arg_from_rosc(arg: rosc::OscType) -> OscArg {
    match arg {
        rosc::OscType::Time(t) => OscArg::Time(OscTime { seconds: t.seconds, fractional: t.fractional }),
        rosc::OscType::Color(c) => OscArg::Color(OscColor { red: c.red, green: c.green, blue: c.blue, alpha: c.alpha }),
        rosc::OscType::Midi(m) => OscArg::Midi(OscMidiMessage { port: m.port, status: m.status, data1: m.data1, data2: m.data2 }),
        rosc::OscType::Array(a) => OscArg::Array(a.content.into_iter().map(arg_from_rosc).collect()),
        simple => arg_from_rosc(simple),
    }
}

/// Converts one of rosc's packets, one for one, messages with their
/// address and converted arguments, bundles with their time tag and
/// converted packets. Nothing is claimed of it on its own.
#[verifier::external_body]
fn packet_from_rosc(packet: rosc::OscPacket) -> Packet {
    match packet {
        rosc::OscPacket::Message(m) => Packet::Message(OscMessage {
            addr: m.addr,
            args: m.args.into_iter().map(arg_from_rosc).collect(),
        }),
        rosc::OscPacket::Bundle(b) => Packet::Bundle(Bundle {
            timetag: OscTime { seconds: b.timetag.seconds, fractional: b.timetag.fractional },
            content: b.content.into_iter().map(packet_from_rosc).collect(),
        }),
    }
}

/// What rosc's `decoder::decode_udp` makes of a datagram, where it decodes
/// it: the bytes left unread and the packet.
pub uninterp spec fn osc_decoded(bytes: Seq<u8>) -> Option<(Seq<u8>, PacketView)>;

/// Calls rosc's `decoder::decode_udp` on a datagram and converts its result:
/// `None` where rosc reports an error, else the unread bytes and the packet.
/// Claimed: the outcome is a function of the bytes alone (`osc_decoded`);
/// which datagrams rosc accepts and what it decodes them to is not stated.
#[verifier::external_body]
pub fn decode_datagram(bytes: &[u8]) -> (r: Option<(Vec<u8>, Packet)>)
    ensures
        r is None <==> osc_decoded(bytes@) is None,
        r matches Some((rest, p)) ==> osc_decoded(bytes@) == Some((rest@, p@)),
{
    match rosc::decoder::decode_udp(bytes) {
        Ok((rest, packet)) => Some((rest.to_vec(), packet_from_rosc(packet))),
        Err(_) => None,
    }
}

/// The messages that a received datagram carries, in order, bundles opened,
/// with the number of bytes that the decoder left unread; `None` where the
/// datagram does not decode.
pub fn received_messages(bytes: &[u8]) -> (r: Option<(usize, Vec<OscMessage>)>)
    ensures
        match osc_decoded(bytes@) {
            None => r is None,
            Some((rest, p)) => r matches Some((n, ms)) && n == rest.len() && messages_view(ms@)
                == view_messages(p),
        },
{
    match decode_datagram(bytes) {
        None => None,
        Some((rest, packet)) => Some((rest.len(), collect_messages(&packet))),
    }
}

} // verus!
