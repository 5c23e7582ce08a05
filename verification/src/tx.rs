//! The envelope of a transaction: version, inputs, outputs, lock time.

use vstd::prelude::*;
use vstd::slice::slice_to_vec;
use crate::cursor::ByteCursor;
use crate::error::DecodeError;
use crate::grammar::has_bytes;
use crate::le::{le_decode, le_value, lemma_le_value_bound, pow256};
use crate::varint::{field_start, varint_width, VarInt};
use crate::version::{version_of, TxVersion};

verus! {

/// A transaction.
#[derive(Debug, PartialEq, Eq, PartialOrd, Ord)]
pub struct BtcTx {
    /// The version of the transaction.
    pub version: TxVersion,
    /// The outputs that the transaction spends.
    pub inputs: Vec<TxInput>,
    /// The outputs that the transaction creates.
    pub outputs: Vec<TxOutput>,
    /// The earliest time or block at which the transaction is final.
    pub locktime: u32,
}

/// One input of a transaction.
#[derive(Debug, PartialEq, Eq, PartialOrd, Ord, Clone)]
pub struct TxInput {
    /// The identifier of the transaction that holds the spent output, in
    /// the byte order in which identifiers are displayed: the reverse of
    /// the order on the wire.
    pub previous_tx_id: [u8; 32],
    /// The position of the spent output among the outputs of that
    /// transaction.
    pub previous_output_index: u32,
    /// The script that satisfies the spent output's locking script.
    pub signature_script: Vec<u8>,
    /// The sequence number.
    pub sequence_number: u32,
}

/// One output of a transaction.
#[derive(Debug, PartialEq, Eq, PartialOrd, Ord, Clone)]
pub struct TxOutput {
    /// The amount in satoshis.
    pub amount: u64,
    /// The script that states how the amount can be spent.
    pub locking_script: Vec<u8>,
}

/// An input as plain values.
pub struct TxInputView {
    pub previous_tx_id: Seq<u8>,
    pub previous_output_index: u32,
    pub signature_script: Seq<u8>,
    pub sequence_number: u32,
}

/// An output as plain values.
pub struct TxOutputView {
    pub amount: u64,
    pub locking_script: Seq<u8>,
}

/// A transaction as plain values.
pub struct BtcTxView {
    pub version: TxVersion,
    pub inputs: Seq<TxInputView>,
    pub outputs: Seq<TxOutputView>,
    pub locktime: u32,
}

impl View for TxInput {
    type V = TxInputView;

    open spec fn view(&self) -> TxInputView {
        TxInputView {
            previous_tx_id: self.previous_tx_id@,
            previous_output_index: self.previous_output_index,
            signature_script: self.signature_script@,
            sequence_number: self.sequence_number,
        }
    }
}

impl View for TxOutput {
    type V = TxOutputView;

    open spec fn view(&self) -> TxOutputView {
        TxOutputView { amount: self.amount, locking_script: self.locking_script@ }
    }
}

/// The inputs of a list as plain values, in their order.
pub open spec fn input_views(inputs: Seq<TxInput>) -> Seq<TxInputView> {
    Seq::new(inputs.len(), |i: int| inputs[i]@)
}

/// The outputs of a list as plain values, in their order.
pub open spec fn output_views(outputs: Seq<TxOutput>) -> Seq<TxOutputView> {
    Seq::new(outputs.len(), |i: int| outputs[i]@)
}

impl View for BtcTx {
    type V = BtcTxView;

    open spec fn view(&self) -> BtcTxView {
        BtcTxView {
            version: self.version,
            inputs: input_views(self.inputs@),
            outputs: output_views(self.outputs@),
            locktime: self.locktime,
        }
    }
}

/// The compact-size integer at `pos` and the offset behind it: one byte up
/// to 252, else a marker and the 2, 4 or 8 bytes that follow it.
pub open spec fn compact_size(s: Seq<u8>, pos: int) -> Result<(usize, int), DecodeError> {
    if !has_bytes(s, pos, 1) {
        Err(DecodeError::UnexpectedEof)
    } else {
        let width = varint_width(s[pos]);
        let start = field_start(width, pos + 1);
        if start + width > s.len() {
            Err(DecodeError::UnexpectedEof)
        } else {
            Ok((le_value(s.subrange(start, start + width)) as usize, start + width))
        }
    }
}

/// The input at `pos` and the offset behind it: 32 bytes of identifier, 4
/// of index, the signature script behind its length, 4 of sequence number.
pub open spec fn input_at(s: Seq<u8>, pos: int) -> Result<(TxInputView, int), DecodeError> {
    if !has_bytes(s, pos, 36) {
        Err(DecodeError::UnexpectedEof)
    } else {
        match compact_size(s, pos + 36) {
            Err(error) => Err(error),
            Ok((len, at)) => if !has_bytes(s, at, len + 4) {
                Err(DecodeError::UnexpectedEof)
            } else {
                Ok(
                    (
                        TxInputView {
                            previous_tx_id: s.subrange(pos, pos + 32).reverse(),
                            previous_output_index: le_value(s.subrange(pos + 32, pos + 36)) as u32,
                            signature_script: s.subrange(at, at + len),
                            sequence_number: le_value(
                                s.subrange(at + len, at + len + 4),
                            ) as u32,
                        },
                        at + len + 4,
                    ),
                )
            },
        }
    }
}

/// The output at `pos` and the offset behind it: 8 bytes of amount and the
/// locking script behind its length.
pub open spec fn output_at(s: Seq<u8>, pos: int) -> Result<(TxOutputView, int), DecodeError> {
    if !has_bytes(s, pos, 8) {
        Err(DecodeError::UnexpectedEof)
    } else {
        match compact_size(s, pos + 8) {
            Err(error) => Err(error),
            Ok((len, at)) => if !has_bytes(s, at, len as int) {
                Err(DecodeError::UnexpectedEof)
            } else {
                Ok(
                    (
                        TxOutputView {
                            amount: le_value(s.subrange(pos, pos + 8)) as u64,
                            locking_script: s.subrange(at, at + len),
                        },
                        at + len,
                    ),
                )
            },
        }
    }
}

/// `n` inputs one behind the other from `pos`, and the offset behind the
/// last.
pub open spec fn inputs_from(s: Seq<u8>, pos: int, n: nat) -> Result<
    (Seq<TxInputView>, int),
    DecodeError,
>
    decreases n,
{
    if n == 0 {
        Ok((Seq::empty(), pos))
    } else {
        match input_at(s, pos) {
            Err(error) => Err(error),
            Ok((first, at)) => match inputs_from(s, at, (n - 1) as nat) {
                Err(error) => Err(error),
                Ok((rest, end)) => Ok((seq![first] + rest, end)),
            },
        }
    }
}

/// `n` outputs one behind the other from `pos`, and the offset behind the
/// last.
pub open spec fn outputs_from(s: Seq<u8>, pos: int, n: nat) -> Result<
    (Seq<TxOutputView>, int),
    DecodeError,
>
    decreases n,
{
    if n == 0 {
        Ok((Seq::empty(), pos))
    } else {
        match output_at(s, pos) {
            Err(error) => Err(error),
            Ok((first, at)) => match outputs_from(s, at, (n - 1) as nat) {
                Err(error) => Err(error),
                Ok((rest, end)) => Ok((seq![first] + rest, end)),
            },
        }
    }
}

/// The inputs of a transaction from `pos`: their number, then as many
/// inputs.
pub open spec fn counted_inputs(s: Seq<u8>, pos: int) -> Result<
    (Seq<TxInputView>, int),
    DecodeError,
> {
    match compact_size(s, pos) {
        Err(error) => Err(error),
        Ok((n, at)) => inputs_from(s, at, n as nat),
    }
}

/// The outputs of a transaction from `pos`: their number, then as many
/// outputs.
pub open spec fn counted_outputs(s: Seq<u8>, pos: int) -> Result<
    (Seq<TxOutputView>, int),
    DecodeError,
> {
    match compact_size(s, pos) {
        Err(error) => Err(error),
        Ok((n, at)) => outputs_from(s, at, n as nat),
    }
}

/// The transaction that `s` begins with: 4 bytes of version, the inputs,
/// the outputs, 4 bytes of lock time. What follows the lock time is not
/// looked at.
pub open spec fn transaction(s: Seq<u8>) -> Result<BtcTxView, DecodeError> {
    if !has_bytes(s, 0, 4) {
        Err(DecodeError::UnexpectedEof)
    } else {
        match counted_inputs(s, 4) {
            Err(error) => Err(error),
            Ok((inputs, at)) => match counted_outputs(s, at) {
                Err(error) => Err(error),
                Ok((outputs, end)) => if !has_bytes(s, end, 4) {
                    Err(DecodeError::UnexpectedEof)
                } else {
                    Ok(
                        BtcTxView {
                            version: version_of(le_value(s.subrange(0, 4))),
                            inputs,
                            outputs,
                            locktime: le_value(s.subrange(end, end + 4)) as u32,
                        },
                    )
                },
            },
        }
    }
}

/// `run` with `front` before its items; a failed run stays as it is.
pub open spec fn after<T>(front: Seq<T>, run: Result<(Seq<T>, int), DecodeError>) -> Result<
    (Seq<T>, int),
    DecodeError,
> {
    match run {
        Ok((items, end)) => Ok((front + items, end)),
        Err(error) => Err(error),
    }
}

/// Reads four bytes as a little-endian number.
fn read_u32(bytes: &mut ByteCursor) -> (value: Result<u32, DecodeError>)
    ensures
        final(bytes).data() == old(bytes).data(),
        match value {
            Ok(number) => has_bytes(old(bytes).data(), old(bytes).offset(), 4) && number
                == le_value(
                old(bytes).data().subrange(old(bytes).offset(), old(bytes).offset() + 4),
            ) && final(bytes).offset() == old(bytes).offset() + 4,
            Err(error) => !has_bytes(old(bytes).data(), old(bytes).offset(), 4) && error
                == DecodeError::UnexpectedEof && final(bytes).offset() == old(bytes).offset(),
        },
{
    proof {
        bytes.lemma_window(4);
    }
    let field = bytes.read_exact(4)?;
    let number: u64 = le_decode(field);
    proof {
        lemma_le_value_bound(field@);
        reveal_with_fuel(pow256, 5);
    }
    Ok(number as u32)
}

/// Reads eight bytes as a little-endian number.
fn read_u64(bytes: &mut ByteCursor) -> (value: Result<u64, DecodeError>)
    ensures
        final(bytes).data() == old(bytes).data(),
        match value {
            Ok(number) => has_bytes(old(bytes).data(), old(bytes).offset(), 8) && number
                == le_value(
                old(bytes).data().subrange(old(bytes).offset(), old(bytes).offset() + 8),
            ) && final(bytes).offset() == old(bytes).offset() + 8,
            Err(error) => !has_bytes(old(bytes).data(), old(bytes).offset(), 8) && error
                == DecodeError::UnexpectedEof && final(bytes).offset() == old(bytes).offset(),
        },
{
    proof {
        bytes.lemma_window(8);
    }
    let field = bytes.read_exact(8)?;
    Ok(le_decode(field))
}

/// Reads a compact-size integer.
fn read_compact_size(bytes: &mut ByteCursor) -> (value: Result<usize, DecodeError>)
    ensures
        final(bytes).data() == old(bytes).data(),
        match value {
            Ok(number) => compact_size(old(bytes).data(), old(bytes).offset()) == Ok::<
                (usize, int),
                DecodeError,
            >((number, final(bytes).offset())),
            Err(error) => compact_size(old(bytes).data(), old(bytes).offset()) == Err::<
                (usize, int),
                DecodeError,
            >(error),
        },
{
    proof {
        bytes.lemma_window(1);
    }
    let first: u8 = bytes.read_byte()?;
    let width: usize = VarInt::parse(first);
    VarInt::integer(width, bytes)
}

/// Reads `n` bytes into a vector.
fn read_vec(bytes: &mut ByteCursor, n: usize) -> (data: Result<Vec<u8>, DecodeError>)
    requires
        old(bytes).offset() <= old(bytes).data().len(),
    ensures
        final(bytes).data() == old(bytes).data(),
        match data {
            Ok(read) => has_bytes(old(bytes).data(), old(bytes).offset(), n as int) && read@
                == old(bytes).data().subrange(old(bytes).offset(), old(bytes).offset() + n)
                && final(bytes).offset() == old(bytes).offset() + n,
            Err(error) => !has_bytes(old(bytes).data(), old(bytes).offset(), n as int) && error
                == DecodeError::UnexpectedEof && final(bytes).offset() == old(bytes).offset(),
        },
{
    proof {
        bytes.lemma_window_within(n as int);
    }
    let field = bytes.read_exact(n)?;
    Ok(slice_to_vec(field))
}

impl BtcTx {
    /// Decodes the transaction that `bytes` begin with. Bytes behind the
    /// lock time are not looked at.
    pub fn from_hex_bytes(bytes: &[u8]) -> (tx: Result<Self, DecodeError>)
        ensures
            match tx {
                Ok(decoded) => transaction(bytes@) == Ok::<BtcTxView, DecodeError>(decoded@),
                Err(error) => transaction(bytes@) == Err::<BtcTxView, DecodeError>(error),
            },
    {
        let mut cursor = ByteCursor::new(bytes);
        proof {
            cursor.lemma_window(4);
        }
        let version_bytes = cursor.read_exact(4)?;
        let version_field: [u8; 4] = [
            version_bytes[0],
            version_bytes[1],
            version_bytes[2],
            version_bytes[3],
        ];
        assert(version_field@ =~= bytes@.subrange(0, 4));
        let version = TxVersion::from_bytes(version_field);
        let inputs = Self::get_inputs(&mut cursor)?;
        let outputs = Self::get_outputs(&mut cursor)?;
        let locktime = Self::locktime(&mut cursor)?;
        Ok(BtcTx { version, inputs, outputs, locktime })
    }

    /// Reads the number of inputs and then as many inputs.
    fn get_inputs(bytes: &mut ByteCursor) -> (inputs: Result<Vec<TxInput>, DecodeError>)
        ensures
            final(bytes).data() == old(bytes).data(),
            match inputs {
                Ok(list) => counted_inputs(old(bytes).data(), old(bytes).offset()) == Ok::<
                    (Seq<TxInputView>, int),
                    DecodeError,
                >((input_views(list@), final(bytes).offset())),
                Err(error) => counted_inputs(old(bytes).data(), old(bytes).offset()) == Err::<
                    (Seq<TxInputView>, int),
                    DecodeError,
                >(error),
            },
    {
        let ghost s = bytes.data();
        let n: usize = read_compact_size(bytes)?;
        let ghost start = bytes.offset();
        let mut inputs: Vec<TxInput> = Vec::new();
        let mut i: usize = 0;
        proof {
            assert(after(input_views(inputs@), inputs_from(s, start, n as nat)) =~= inputs_from(
                s,
                start,
                n as nat,
            )) by {
                let run = inputs_from(s, start, n as nat);
                if run is Ok {
                    assert(input_views(inputs@) + run->Ok_0.0 =~= run->Ok_0.0);
                }
            }
        }
        while i < n
            invariant
                s == old(bytes).data(),
                bytes.data() == s,
                i <= n,
                counted_inputs(s, old(bytes).offset()) == inputs_from(s, start, n as nat),
                inputs_from(s, start, n as nat) == after(
                    input_views(inputs@),
                    inputs_from(s, bytes.offset(), (n - i) as nat),
                ),
            decreases n - i,
        {
            let ghost pos = bytes.offset();
            let ghost done = input_views(inputs@);
            let input = Self::input_decoder(bytes)?;
            inputs.push(input);
            proof {
                let rest = inputs_from(s, bytes.offset(), (n - i - 1) as nat);
                assert(input_views(inputs@) =~= done.push(input@));
                if rest is Ok {
                    assert(done + (seq![input@] + rest->Ok_0.0) =~= done.push(input@)
                        + rest->Ok_0.0);
                }
            }
            i = i + 1;
        }
        proof {
            assert(input_views(inputs@) + Seq::<TxInputView>::empty() =~= input_views(inputs@));
        }
        Ok(inputs)
    }

    /// Reads one input.
    fn input_decoder(bytes: &mut ByteCursor) -> (input: Result<TxInput, DecodeError>)
        ensures
            final(bytes).data() == old(bytes).data(),
            match input {
                Ok(decoded) => input_at(old(bytes).data(), old(bytes).offset()) == Ok::<
                    (TxInputView, int),
                    DecodeError,
                >((decoded@, final(bytes).offset())),
                Err(error) => input_at(old(bytes).data(), old(bytes).offset()) == Err::<
                    (TxInputView, int),
                    DecodeError,
                >(error),
            },
    {
        let ghost s = bytes.data();
        let ghost pos = bytes.offset();
        proof {
            bytes.lemma_window(32);
        }
        let wire_id = bytes.read_exact(32)?;
        let mut previous_tx_id = [0u8; 32];
        let mut i: usize = 0;
        while i < 32
            invariant
                i <= 32,
                wire_id@.len() == 32,
                forall|j: int| 0 <= j < i ==> previous_tx_id@[j] == wire_id@[31 - j],
            decreases 32 - i,
        {
            previous_tx_id[i] = wire_id[31 - i];
            i = i + 1;
        }
        proof {
            assert(previous_tx_id@ =~= s.subrange(pos, pos + 32).reverse());
        }
        let previous_output_index = read_u32(bytes)?;
        let script_len: usize = read_compact_size(bytes)?;
        let ghost at = bytes.offset();
        let signature_script = read_vec(bytes, script_len)?;
        let sequence_number = read_u32(bytes)?;
        Ok(TxInput { previous_tx_id, previous_output_index, signature_script, sequence_number })
    }

    /// Reads the number of outputs and then as many outputs.
    fn get_outputs(bytes: &mut ByteCursor) -> (outputs: Result<Vec<TxOutput>, DecodeError>)
        ensures
            final(bytes).data() == old(bytes).data(),
            match outputs {
                Ok(list) => counted_outputs(old(bytes).data(), old(bytes).offset()) == Ok::<
                    (Seq<TxOutputView>, int),
                    DecodeError,
                >((output_views(list@), final(bytes).offset())),
                Err(error) => counted_outputs(old(bytes).data(), old(bytes).offset()) == Err::<
                    (Seq<TxOutputView>, int),
                    DecodeError,
                >(error),
            },
    {
        let ghost s = bytes.data();
        let n: usize = read_compact_size(bytes)?;
        let ghost start = bytes.offset();
        let mut outputs: Vec<TxOutput> = Vec::new();
        let mut i: usize = 0;
        proof {
            assert(after(output_views(outputs@), outputs_from(s, start, n as nat))
                =~= outputs_from(s, start, n as nat)) by {
                let run = outputs_from(s, start, n as nat);
                if run is Ok {
                    assert(output_views(outputs@) + run->Ok_0.0 =~= run->Ok_0.0);
                }
            }
        }
        while i < n
            invariant
                s == old(bytes).data(),
                bytes.data() == s,
                i <= n,
                counted_outputs(s, old(bytes).offset()) == outputs_from(s, start, n as nat),
                outputs_from(s, start, n as nat) == after(
                    output_views(outputs@),
                    outputs_from(s, bytes.offset(), (n - i) as nat),
                ),
            decreases n - i,
        {
            let ghost pos = bytes.offset();
            let ghost done = output_views(outputs@);
            let amount: u64 = read_u64(bytes)?;
            let script_len: usize = read_compact_size(bytes)?;
            let locking_script = read_vec(bytes, script_len)?;
            let output = TxOutput { amount, locking_script };
            outputs.push(output);
            proof {
                let rest = outputs_from(s, bytes.offset(), (n - i - 1) as nat);
                assert(output_views(outputs@) =~= done.push(output@));
                if rest is Ok {
                    assert(done + (seq![output@] + rest->Ok_0.0) =~= done.push(output@)
                        + rest->Ok_0.0);
                }
            }
            i = i + 1;
        }
        proof {
            assert(output_views(outputs@) + Seq::<TxOutputView>::empty() =~= output_views(
                outputs@,
            ));
        }
        Ok(outputs)
    }

    /// Reads the lock time, four bytes little-endian.
    fn locktime(bytes: &mut ByteCursor) -> (locktime: Result<u32, DecodeError>)
        ensures
            final(bytes).data() == old(bytes).data(),
            match locktime {
                Ok(number) => has_bytes(old(bytes).data(), old(bytes).offset(), 4) && number
                    == le_value(
                    old(bytes).data().subrange(old(bytes).offset(), old(bytes).offset() + 4),
                ) && final(bytes).offset() == old(bytes).offset() + 4,
                Err(error) => !has_bytes(old(bytes).data(), old(bytes).offset(), 4) && error
                    == DecodeError::UnexpectedEof && final(bytes).offset() == old(
                    bytes,
                ).offset(),
            },
    {
        read_u32(bytes)
    }
}

} // verus!
