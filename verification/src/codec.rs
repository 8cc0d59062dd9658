//! Byte-level form of the instruction stream.
//!
//! A code unit commits to one of three operand widths: every operand field of
//! every instruction is stored in that many bytes, little endian, after the
//! opcode's own byte. Emission works on structured [`Instruction`] values;
//! [`finalize`] picks the narrowest width that fits every operand of the unit
//! and serializes the whole stream; [`decode`] parses a serialized stream
//! back. Decoding a finalized unit with its committed width reproduces the
//! emitted instructions exactly, which [`lemma_stream_round_trip`] proves.

use vstd::prelude::*;
use vstd::arithmetic::div_mod::lemma_fundamental_div_mod;
use crate::opcode::Opcode;

verus! {

/// One of the three physical operand encodings of a code unit.
#[derive(Clone, Copy, Debug, PartialEq, Eq, Structural)]
pub enum OperandWidth {
    /// Operand fields take one byte.
    Narrow,
    /// Operand fields take two bytes.
    Medium,
    /// Operand fields take four bytes.
    Wide,
}

impl OperandWidth {
    /// Number of bytes of one operand field.
    pub open spec fn field_bytes(self) -> nat {
        match self {
            OperandWidth::Narrow => 1,
            OperandWidth::Medium => 2,
            OperandWidth::Wide => 4,
        }
    }

    /// Executable form of [`OperandWidth::field_bytes`].
    pub fn exec_field_bytes(self) -> (n: usize)
        ensures
            n == self.field_bytes(),
    {
        match self {
            OperandWidth::Narrow => 1,
            OperandWidth::Medium => 2,
            OperandWidth::Wide => 4,
        }
    }

    /// Whether an operand value is representable in this width.
    pub open spec fn fits(self, v: u32) -> bool {
        match self {
            OperandWidth::Narrow => v < 256,
            OperandWidth::Medium => v < 65536,
            OperandWidth::Wide => true,
        }
    }
}

/// The little-endian byte field of an operand value at a given width.
pub open spec fn field_of(v: u32, w: OperandWidth) -> Seq<u8> {
    match w {
        OperandWidth::Narrow => seq![(v % 256) as u8],
        OperandWidth::Medium => seq![(v % 256) as u8, ((v / 256) % 256) as u8],
        OperandWidth::Wide => seq![
            (v % 256) as u8,
            ((v / 256) % 256) as u8,
            ((v / 65536) % 256) as u8,
            ((v / 16777216) % 256) as u8,
        ],
    }
}

/// The value a little-endian byte field stands for.
pub open spec fn field_value(s: Seq<u8>) -> int
    decreases s.len(),
{
    if s.len() == 0 {
        0
    } else {
        s[0] + 256 * field_value(s.drop_first())
    }
}

/// A byte field stands for a value below `256 ^ len`.
pub proof fn lemma_field_value_bound(s: Seq<u8>)
    ensures
        0 <= field_value(s),
        field_value(s) < vstd::arithmetic::power::pow(256, s.len()),
    decreases s.len(),
{
    vstd::arithmetic::power::lemma_pow_positive(256, s.len());
    if s.len() == 0 {
    } else {
        lemma_field_value_bound(s.drop_first());
        assert(vstd::arithmetic::power::pow(256, s.len()) == 256 * vstd::arithmetic::power::pow(
            256,
            (s.len() - 1) as nat,
        )) by {
            vstd::arithmetic::power::lemma_pow1(256);
            vstd::arithmetic::power::lemma_pow_adds(256, 1, (s.len() - 1) as nat);
        }
    }
}

/// An operand value that fits its width is reproduced exactly by reading its
/// byte field back.
pub proof fn lemma_field_round_trip(v: u32, w: OperandWidth)
    requires
        w.fits(v),
    ensures
        field_value(field_of(v, w)) == v,
{
    reveal_with_fuel(field_value, 6);
    match w {
        OperandWidth::Narrow => {
            assert(field_value(field_of(v, w)) == (v % 256) + 256 * 0);
        }
        OperandWidth::Medium => {
            lemma_fundamental_div_mod(v as int, 256);
            assert(field_value(field_of(v, w)) == (v % 256) + 256 * (((v / 256) % 256) + 256 * 0));
            assert(v / 256 < 256);
        }
        OperandWidth::Wide => {
            lemma_fundamental_div_mod(v as int, 256);
            lemma_fundamental_div_mod((v / 256) as int, 256);
            lemma_fundamental_div_mod((v / 65536) as int, 256);
            assert(v / 256 / 256 == v / 65536) by {
                vstd::arithmetic::div_mod::lemma_div_denominator(v as int, 256, 256);
            }
            assert(v / 65536 / 256 == v / 16777216) by {
                vstd::arithmetic::div_mod::lemma_div_denominator(v as int, 65536, 256);
            }
            assert(v / 16777216 < 256);
        }
    }
}


/// A structured instruction: an opcode plus its operand values.
///
/// Well-formed instructions carry exactly as many operands as their opcode
/// asks for; the compiler only ever emits well-formed ones.
#[derive(Debug)]
pub struct Instruction {
    /// The operation this instruction performs.
    pub op: Opcode,
    /// The operand fields, in instruction-stream order.
    pub operands: Vec<u32>,
}

/// The mathematical model of one instruction.
pub ghost struct InstrModel {
    /// The operation.
    pub op: Opcode,
    /// The operand values.
    pub operands: Seq<u32>,
}

impl Instruction {
    /// The instruction's mathematical model.
    pub open spec fn model(self) -> InstrModel {
        InstrModel { op: self.op, operands: self.operands@ }
    }

    /// The instruction carries exactly the operands its opcode asks for.
    pub open spec fn wf(self) -> bool {
        self.model().wf()
    }
}

impl InstrModel {
    /// The instruction carries exactly the operands its opcode asks for.
    pub open spec fn wf(self) -> bool {
        self.operands.len() == self.op.operand_count()
    }

    /// Every operand value is representable at the given width.
    pub open spec fn fits(self, w: OperandWidth) -> bool {
        forall|i: int| 0 <= i < self.operands.len() ==> w.fits(#[trigger] self.operands[i])
    }
}

/// The models of a sequence of structured instructions.
pub open spec fn stream_models(l: Seq<Instruction>) -> Seq<InstrModel> {
    l.map_values(|i: Instruction| i.model())
}

/// Every instruction of the stream is well formed.
pub open spec fn stream_wf(ms: Seq<InstrModel>) -> bool {
    forall|i: int| 0 <= i < ms.len() ==> (#[trigger] ms[i]).wf()
}

/// Every operand of the stream is representable at the given width.
pub open spec fn stream_fits(ms: Seq<InstrModel>, w: OperandWidth) -> bool {
    forall|i: int| 0 <= i < ms.len() ==> (#[trigger] ms[i]).fits(w)
}

/// The byte fields of a run of operand values.
pub open spec fn fields_of(operands: Seq<u32>, w: OperandWidth) -> Seq<u8>
    decreases operands.len(),
{
    if operands.len() == 0 {
        Seq::empty()
    } else {
        field_of(operands[0], w) + fields_of(operands.drop_first(), w)
    }
}

/// The serialized bytes of one instruction at the given width.
pub open spec fn encode_instr(m: InstrModel, w: OperandWidth) -> Seq<u8> {
    seq![m.op.byte()] + fields_of(m.operands, w)
}

/// The serialized bytes of a whole instruction stream at the given width.
pub open spec fn encode_stream(ms: Seq<InstrModel>, w: OperandWidth) -> Seq<u8>
    decreases ms.len(),
{
    if ms.len() == 0 {
        Seq::empty()
    } else {
        encode_instr(ms[0], w) + encode_stream(ms.drop_first(), w)
    }
}

/// The first `k` operand values read from a byte run at the given width.
pub open spec fn decode_fields(b: Seq<u8>, k: nat, w: OperandWidth) -> Seq<u32>
    decreases k,
{
    if k == 0 {
        Seq::empty()
    } else {
        seq![field_value(b.take(w.field_bytes() as int)) as u32] + decode_fields(
            b.skip(w.field_bytes() as int),
            (k - 1) as nat,
            w,
        )
    }
}

/// The instruction stream read back from serialized bytes, or `None` if the
/// bytes are not a whole number of instructions of the catalog.
pub open spec fn decode_stream(b: Seq<u8>, w: OperandWidth) -> Option<Seq<InstrModel>>
    decreases b.len(),
{
    if b.len() == 0 {
        Some(Seq::empty())
    } else {
        match Opcode::spec_from_byte(b[0]) {
            None => None,
            Some(op) => {
                let need = 1 + op.operand_count() * w.field_bytes();
                if b.len() < need {
                    None
                } else {
                    let operands = decode_fields(b.skip(1), op.operand_count(), w);
                    match decode_stream(b.skip(need as int), w) {
                        None => None,
                        Some(rest) => Some(seq![InstrModel { op, operands }] + rest),
                    }
                }
            }
        }
    }
}

/// The byte fields of a run of operands take one field per operand.
pub proof fn lemma_fields_of_len(operands: Seq<u32>, w: OperandWidth)
    ensures
        fields_of(operands, w).len() == operands.len() * w.field_bytes(),
    decreases operands.len(),
{
    if operands.len() == 0 {
    } else {
        lemma_fields_of_len(operands.drop_first(), w);
        assert(operands.len() * w.field_bytes() == w.field_bytes() + (operands.len() - 1)
            * w.field_bytes()) by (nonlinear_arith);
    }
}

/// Reading fields back from their own bytes (with anything behind them)
/// reproduces the operand values exactly.
pub proof fn lemma_fields_round_trip(operands: Seq<u32>, tail: Seq<u8>, w: OperandWidth)
    requires
        forall|i: int| 0 <= i < operands.len() ==> w.fits(#[trigger] operands[i]),
    ensures
        decode_fields(fields_of(operands, w) + tail, operands.len(), w) == operands,
    decreases operands.len(),
{
    let fb = w.field_bytes() as int;
    if operands.len() == 0 {
        assert(decode_fields(fields_of(operands, w) + tail, 0, w) =~= operands);
    } else {
        let first = field_of(operands[0], w);
        let restf = fields_of(operands.drop_first(), w);
        let b = fields_of(operands, w) + tail;
        assert(b =~= first + (restf + tail));
        assert(first.len() == fb);
        assert(b.take(fb) =~= first);
        assert(b.skip(fb) =~= restf + tail);
        lemma_field_round_trip(operands[0], w);
        lemma_fields_round_trip(operands.drop_first(), tail, w);
        assert(decode_fields(b, operands.len(), w) =~= operands);
    }
}

/// Decoding a serialized stream at its own width reproduces the emitted
/// instructions exactly: width finalization is lossless.
pub proof fn lemma_stream_round_trip(ms: Seq<InstrModel>, w: OperandWidth)
    requires
        stream_wf(ms),
        stream_fits(ms, w),
    ensures
        decode_stream(encode_stream(ms, w), w) == Some(ms),
    decreases ms.len(),
{
    if ms.len() == 0 {
        assert(decode_stream(encode_stream(ms, w), w) =~= Some(ms));
    } else {
        let m = ms[0];
        let rest = ms.drop_first();
        let b = encode_stream(ms, w);
        let fields = fields_of(m.operands, w);
        let restb = encode_stream(rest, w);
        let k = m.op.operand_count();
        let need = 1 + k * w.field_bytes();
        assert(b =~= seq![m.op.byte()] + (fields + restb));
        assert(b[0] == m.op.byte());
        crate::opcode::lemma_opcode_byte_round_trip(m.op);
        lemma_fields_of_len(m.operands, w);
        assert(b.len() == need + restb.len());
        assert(b.skip(1) =~= fields + restb);
        lemma_fields_round_trip(m.operands, restb, w);
        assert(decode_fields(b.skip(1), k, w) == m.operands);
        assert(b.skip(need as int) =~= restb);
        lemma_stream_round_trip(rest, w);
        assert(seq![InstrModel { op: m.op, operands: m.operands }] + rest =~= ms);
    }
}


/// Appending one instruction to a stream appends its serialized bytes.
pub proof fn lemma_encode_stream_snoc(ms: Seq<InstrModel>, m: InstrModel, w: OperandWidth)
    ensures
        encode_stream(ms.push(m), w) == encode_stream(ms, w) + encode_instr(m, w),
    decreases ms.len(),
{
    if ms.len() == 0 {
        assert(ms.push(m).drop_first() =~= ms);
        assert(encode_stream(ms.push(m), w) =~= encode_stream(ms, w) + encode_instr(m, w));
    } else {
        assert(ms.push(m).drop_first() =~= ms.drop_first().push(m));
        lemma_encode_stream_snoc(ms.drop_first(), m, w);
        assert(encode_stream(ms.push(m), w) =~= encode_stream(ms, w) + encode_instr(m, w));
    }
}

/// Appending one operand appends its byte field.
pub proof fn lemma_fields_of_snoc(operands: Seq<u32>, v: u32, w: OperandWidth)
    ensures
        fields_of(operands.push(v), w) == fields_of(operands, w) + field_of(v, w),
    decreases operands.len(),
{
    if operands.len() == 0 {
        assert(operands.push(v).drop_first() =~= operands);
        assert(fields_of(operands.push(v), w) =~= fields_of(operands, w) + field_of(v, w));
    } else {
        assert(operands.push(v).drop_first() =~= operands.drop_first().push(v));
        lemma_fields_of_snoc(operands.drop_first(), v, w);
        assert(fields_of(operands.push(v), w) =~= fields_of(operands, w) + field_of(v, w));
    }
}

/// Appends the little-endian byte field of one operand value.
fn push_field(bytes: &mut Vec<u8>, v: u32, w: OperandWidth)
    ensures
        final(bytes)@ == old(bytes)@ + field_of(v, w),
{
    match w {
        OperandWidth::Narrow => {
            bytes.push((v % 256) as u8);
        }
        OperandWidth::Medium => {
            bytes.push((v % 256) as u8);
            bytes.push(((v / 256) % 256) as u8);
        }
        OperandWidth::Wide => {
            bytes.push((v % 256) as u8);
            bytes.push(((v / 256) % 256) as u8);
            bytes.push(((v / 65536) % 256) as u8);
            bytes.push(((v / 16777216) % 256) as u8);
        }
    }
    assert(bytes@ =~= old(bytes)@ + field_of(v, w));
}

/// Whether every operand of one instruction is representable at a width.
pub fn instr_fits(instruction: &Instruction, w: OperandWidth) -> (b: bool)
    ensures
        b == instruction.model().fits(w),
{
    let limit: u32 = match w {
        OperandWidth::Narrow => 255,
        OperandWidth::Medium => 65535,
        OperandWidth::Wide => u32::MAX,
    };
    let mut j: usize = 0;
    while j < instruction.operands.len()
        invariant
            j <= instruction.operands@.len(),
            forall|i: int| 0 <= i < j ==> w.fits(#[trigger] instruction.operands@[i]),
            limit == match w {
                OperandWidth::Narrow => 255u32,
                OperandWidth::Medium => 65535u32,
                OperandWidth::Wide => u32::MAX,
            },
        decreases instruction.operands@.len() - j,
    {
        if instruction.operands[j] > limit {
            assert(!w.fits(instruction.model().operands[j as int]));
            return false;
        }
        j = j + 1;
    }
    true
}

/// Whether every operand of a whole stream is representable at a width.
pub fn all_fit(instructions: &Vec<Instruction>, w: OperandWidth) -> (b: bool)
    ensures
        b == stream_fits(stream_models(instructions@), w),
{
    let ghost ms = stream_models(instructions@);
    let mut i: usize = 0;
    while i < instructions.len()
        invariant
            i <= instructions@.len(),
            ms == stream_models(instructions@),
            forall|k: int| 0 <= k < i ==> (#[trigger] ms[k]).fits(w),
        decreases instructions@.len() - i,
    {
        if !instr_fits(&instructions[i], w) {
            assert(!ms[i as int].fits(w));
            return false;
        }
        i = i + 1;
    }
    true
}

/// Picks the narrowest operand width that fits every operand of the stream.
pub fn choose_width(instructions: &Vec<Instruction>) -> (w: OperandWidth)
    ensures
        stream_fits(stream_models(instructions@), w),
        w != OperandWidth::Narrow ==> !stream_fits(
            stream_models(instructions@),
            OperandWidth::Narrow,
        ),
        w == OperandWidth::Wide ==> !stream_fits(
            stream_models(instructions@),
            OperandWidth::Medium,
        ),
{
    if all_fit(instructions, OperandWidth::Narrow) {
        OperandWidth::Narrow
    } else if all_fit(instructions, OperandWidth::Medium) {
        OperandWidth::Medium
    } else {
        assert forall|i: int| 0 <= i < stream_models(instructions@).len() implies (
        #[trigger] stream_models(instructions@)[i]).fits(OperandWidth::Wide) by {}
        OperandWidth::Wide
    }
}

/// Serializes a structured instruction stream at the given width.
pub fn serialize_stream(instructions: &Vec<Instruction>, w: OperandWidth) -> (bytes: Vec<u8>)
    requires
        stream_fits(stream_models(instructions@), w),
    ensures
        bytes@ == encode_stream(stream_models(instructions@), w),
{
    let ghost ms = stream_models(instructions@);
    let mut bytes: Vec<u8> = Vec::new();
    let mut i: usize = 0;
    while i < instructions.len()
        invariant
            i <= instructions@.len(),
            ms == stream_models(instructions@),
            stream_fits(ms, w),
            bytes@ == encode_stream(ms.take(i as int), w),
        decreases instructions@.len() - i,
    {
        let instruction = &instructions[i];
        let ghost m = ms[i as int];
        let ghost before = bytes@;
        bytes.push(instruction.op.to_byte());
        let mut j: usize = 0;
        while j < instruction.operands.len()
            invariant
                j <= instruction.operands@.len(),
                m == ms[i as int],
                0 <= i < ms.len(),
                ms == stream_models(instructions@),
                stream_fits(ms, w),
                i < instructions@.len(),
                instruction == instructions@[i as int],
                m.operands == instruction.operands@,
                m.op == instruction.op,
                bytes@ == before + seq![m.op.byte()] + fields_of(m.operands.take(j as int), w),
            decreases instruction.operands@.len() - j,
        {
            let v = instruction.operands[j];
            push_field(&mut bytes, v, w);
            proof {
                lemma_fields_of_snoc(m.operands.take(j as int), v, w);
                assert(m.operands.take(j + 1) =~= m.operands.take(j as int).push(v));
                assert(bytes@ =~= before + seq![m.op.byte()] + fields_of(
                    m.operands.take(j + 1),
                    w,
                ));
            }
            j = j + 1;
        }
        proof {
            assert(m.operands.take(instruction.operands@.len() as int) =~= m.operands);
            assert(bytes@ =~= before + encode_instr(m, w));
            lemma_encode_stream_snoc(ms.take(i as int), m, w);
            assert(ms.take(i + 1) =~= ms.take(i as int).push(m));
        }
        i = i + 1;
    }
    proof {
        assert(ms.take(instructions@.len() as int) =~= ms);
    }
    bytes
}

/// Picks the narrowest width that fits every operand of the unit and
/// serializes the whole stream with it.
pub fn finalize(instructions: &Vec<Instruction>) -> (r: (OperandWidth, Vec<u8>))
    ensures
        stream_fits(stream_models(instructions@), r.0),
        r.0 != OperandWidth::Narrow ==> !stream_fits(
            stream_models(instructions@),
            OperandWidth::Narrow,
        ),
        r.0 == OperandWidth::Wide ==> !stream_fits(
            stream_models(instructions@),
            OperandWidth::Medium,
        ),
        r.1@ == encode_stream(stream_models(instructions@), r.0),
{
    let w = choose_width(instructions);
    let bytes = serialize_stream(instructions, w);
    (w, bytes)
}

/// Reads one operand field at a byte offset.
pub fn read_field(bytes: &Vec<u8>, pos: usize, w: OperandWidth) -> (v: u32)
    requires
        pos + w.field_bytes() <= bytes@.len(),
    ensures
        v == field_value(bytes@.subrange(pos as int, pos + w.field_bytes())),
{
    proof {
        reveal_with_fuel(field_value, 6);
    }
    let n = bytes.len();
    assert(n == bytes@.len());
    match w {
        OperandWidth::Narrow => {
            let b0 = bytes[pos];
            let ghost s = bytes@.subrange(pos as int, pos + 1);
            assert(s[0] == b0 && s.drop_first().len() == 0);
            b0 as u32
        }
        OperandWidth::Medium => {
            assert(w.field_bytes() == 2);
            let b0 = bytes[pos] as u32;
            let b1 = bytes[pos + 1] as u32;
            let ghost s = bytes@.subrange(pos as int, pos + 2);
            assert(s[0] == bytes@[pos as int] && s.drop_first()[0] == bytes@[pos + 1]
                && s.drop_first().drop_first().len() == 0);
            b0 + 256 * b1
        }
        OperandWidth::Wide => {
            assert(w.field_bytes() == 4);
            let b0 = bytes[pos] as u32;
            let b1 = bytes[pos + 1] as u32;
            let b2 = bytes[pos + 2] as u32;
            let b3 = bytes[pos + 3] as u32;
            let ghost s = bytes@.subrange(pos as int, pos + 4);
            assert(s[0] == bytes@[pos as int] && s.drop_first()[0] == bytes@[pos + 1]
                && s.drop_first().drop_first()[0] == bytes@[pos + 2]
                && s.drop_first().drop_first().drop_first()[0] == bytes@[pos + 3]
                && s.drop_first().drop_first().drop_first().drop_first().len() == 0);
            b0 + 256 * b1 + 65536 * b2 + 16777216 * b3
        }
    }
}

/// Parses a serialized instruction stream back into structured form.
///
/// Succeeds exactly when the abstract decoding relation succeeds, and then
/// returns instructions with exactly its models.
pub fn decode(bytes: &Vec<u8>, w: OperandWidth) -> (r: Option<Vec<Instruction>>)
    ensures
        match r {
            Some(l) => decode_stream(bytes@, w) == Some(stream_models(l@)) && forall|i: int|
                0 <= i < l@.len() ==> (#[trigger] l@[i]).wf(),
            None => decode_stream(bytes@, w) is None,
        },
{
    let fb = w.exec_field_bytes();
    let n = bytes.len();
    let mut out: Vec<Instruction> = Vec::new();
    let mut pos: usize = 0;
    proof {
        assert(bytes@.skip(0) =~= bytes@);
        assert(stream_models(out@) + decode_stream(bytes@, w)->Some_0 =~= decode_stream(
            bytes@,
            w,
        )->Some_0) by {
            if decode_stream(bytes@, w) is Some {
            }
        }
    }
    while pos < bytes.len()
        invariant
            pos <= bytes@.len(),
            n == bytes@.len(),
            fb == w.field_bytes(),
            forall|i: int| 0 <= i < out@.len() ==> (#[trigger] out@[i]).wf(),
            decode_stream(bytes@, w) == match decode_stream(bytes@.skip(pos as int), w) {
                Some(t) => Some(stream_models(out@) + t),
                None => None,
            },
        decreases bytes@.len() - pos,
    {
        let ghost tail = bytes@.skip(pos as int);
        assert(tail[0] == bytes@[pos as int]);
        let op = match Opcode::from_byte(bytes[pos]) {
            Some(op) => op,
            None => {
                return None;
            }
        };
        let k = op.exec_operand_count();
        let need_fields = k * fb;
        assert(need_fields <= 12);
        if bytes.len() - pos - 1 < need_fields {
            assert(tail.len() < 1 + op.operand_count() * w.field_bytes());
            return None;
        }
        let base = pos + 1;
        let mut operands: Vec<u32> = Vec::new();
        let mut j: usize = 0;
        while j < k
            invariant
                j <= k,
                fb == w.field_bytes(),
                k == op.operand_count(),
                n == bytes@.len(),
                pos + 1 + k * fb <= bytes@.len(),
                base == pos + 1,
                operands@.len() == j,
                decode_fields(bytes@.skip(base as int), k as nat, w) == operands@ + decode_fields(
                    bytes@.skip(base + j * fb),
                    (k - j) as nat,
                    w,
                ),
            decreases k - j,
        {
            proof {
                assert(j * fb <= k * fb && (j + 1) * fb <= k * fb) by (nonlinear_arith)
                    requires j < k, 0 <= fb,
                ;
            }
            let v = read_field(bytes, base + j * fb, w);
            proof {
                let cur = bytes@.skip(base + j * fb);
                assert(cur.take(fb as int) =~= bytes@.subrange(
                    base + j * fb,
                    base + j * fb + fb,
                ));
                assert(cur.skip(fb as int) =~= bytes@.skip(base + (j + 1) * fb));
                lemma_field_value_bound(cur.take(fb as int));
                assert(decode_fields(cur, (k - j) as nat, w) == seq![
                    field_value(cur.take(fb as int)) as u32,
                ] + decode_fields(bytes@.skip(base + (j + 1) * fb), (k - j - 1) as nat, w));
                assert(operands@.push(v) + decode_fields(
                    bytes@.skip(base + (j + 1) * fb),
                    (k - j - 1) as nat,
                    w,
                ) =~= operands@ + decode_fields(cur, (k - j) as nat, w));
            }
            operands.push(v);
            j = j + 1;
        }
        proof {
            assert(decode_fields(bytes@.skip(base + k * fb), 0, w) =~= Seq::<u32>::empty());
            assert(operands@ + Seq::<u32>::empty() =~= operands@);
            assert(decode_fields(bytes@.skip(base as int), k as nat, w) == operands@);
        }
        let ghost m = InstrModel { op, operands: operands@ };
        let instruction = Instruction { op, operands };
        proof {
            let need = 1 + op.operand_count() * w.field_bytes();
            assert(tail.len() >= need);
            assert(tail.skip(1) =~= bytes@.skip(base as int));
            assert(decode_fields(tail.skip(1), op.operand_count(), w) == m.operands);
            assert(tail.skip(need as int) =~= bytes@.skip(pos + need));
            assert(decode_stream(tail, w) == match decode_stream(bytes@.skip(pos + need), w) {
                Some(rest) => Some(seq![m] + rest),
                None => None,
            });
            assert(stream_models(out@.push(instruction)) =~= stream_models(out@).push(m));
            if decode_stream(bytes@.skip(pos + need), w) is Some {
                let rest = decode_stream(bytes@.skip(pos + need), w)->Some_0;
                assert(stream_models(out@) + (seq![m] + rest) =~= stream_models(out@).push(m)
                    + rest);
            }
        }
        out.push(instruction);
        pos = pos + 1 + need_fields;
    }
    proof {
        assert(bytes@.skip(pos as int).len() == 0);
        assert(decode_stream(bytes@.skip(pos as int), w) == Some(Seq::<InstrModel>::empty()));
        assert(stream_models(out@) + Seq::<InstrModel>::empty() =~= stream_models(out@));
    }
    Some(out)
}

} // verus!
