//! The rendered form of a script, gathered token by token.

use vstd::prelude::*;
use vstd::string::StringExecFns;
use crate::error::DecodeError;
use crate::opcode::{mnemonic, Opcode};
use crate::text::{encode_hex, hex_string, join_tokens};

verus! {

/// The tokens of a script in the order in which they were pushed. Nothing
/// is ever reordered or dropped; `build` joins them.
#[derive(Debug)]
pub struct ScriptBuilder(Vec<String>);

impl Default for ScriptBuilder {
    /// A builder without tokens.
    fn default() -> (builder: Self)
        ensures
            builder@ == Seq::<Seq<char>>::empty(),
    {
        ScriptBuilder::new()
    }
}

impl View for ScriptBuilder {
    type V = Seq<Seq<char>>;

    /// The tokens pushed so far, oldest first.
    closed spec fn view(&self) -> Seq<Seq<char>> {
        Seq::new(self.0@.len(), |i: int| self.0@[i]@)
    }
}

impl ScriptBuilder {
    /// A builder without tokens.
    pub fn new() -> (builder: Self)
        ensures
            builder@ == Seq::<Seq<char>>::empty(),
    {
        let builder = ScriptBuilder(Vec::new());
        assert(builder@ =~= Seq::<Seq<char>>::empty());
        builder
    }

    /// Adds the name of `opcode` as the next token and hands the builder
    /// back for the next push. The unsupported opcode has no name: it is
    /// refused and the builder stays as it was.
    pub fn push_opcode(&mut self, opcode: Opcode) -> (pushed: Result<&mut Self, DecodeError>)
        ensures
            match pushed {
                Ok(builder) => opcode != Opcode::UnsupportedOpcode && builder@ == old(
                    self,
                )@.push(mnemonic(opcode)) && final(self)@ == final(builder)@,
                Err(error) => opcode == Opcode::UnsupportedOpcode && error
                    == DecodeError::UnsupportedOpcode && final(self)@ == old(self)@,
            },
    {
        match opcode.to_mnemonic() {
            Ok(text) => {
                self.0.push(text);
                assert(self@ =~= old(self)@.push(mnemonic(opcode)));
                Ok(self)
            },
            Err(error) => Err(error),
        }
    }

    /// Adds `bytes` as the next token, in lower-case hexadecimal, and hands
    /// the builder back for the next push. This never fails.
    pub fn push_bytes(&mut self, bytes: &[u8]) -> (pushed: Result<&mut Self, DecodeError>)
        ensures
            pushed is Ok,
            pushed->Ok_0@ == old(self)@.push(hex_string(bytes@)),
            final(self)@ == final(pushed->Ok_0)@,
    {
        self.0.push(encode_hex(bytes));
        assert(self@ =~= old(self)@.push(hex_string(bytes@)));
        Ok(self)
    }

    /// The tokens in their order, joined by single spaces.
    pub fn build(self) -> (script: String)
        ensures
            script@ == join_tokens(self@),
    {
        let mut script = String::new();
        let n: usize = self.0.len();
        let mut i: usize = 0;
        while i < n
            invariant
                n == self.0@.len(),
                i <= n,
                script@ == join_tokens(self@.take(i as int)),
            decreases n - i,
        {
            if i > 0 {
                script.append(" ");
            }
            script.append(self.0[i].as_str());
            proof {
                reveal_strlit(" ");
                let done = self@.take(i + 1);
                assert(done.drop_last() =~= self@.take(i as int));
                assert(done.last() == self.0@[i as int]@);
                assert(" "@ =~= seq![' ']);
                assert(script@ =~= join_tokens(done));
            }
            i = i + 1;
        }
        assert(self@.take(n as int) =~= self@);
        script
    }
}

} // verus!
