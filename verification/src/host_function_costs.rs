//! Representation of a host function cost as ingredients of polynomials: a
//! flat charge plus a per-byte weight for each argument, and the table of all
//! host functions' costs, together with their exact wire format.

use crate::bytesrepr::{
    lemma_parse_u32_of_encoding, lemma_parse_u32_vec_of_encoding, parse_u32, parse_u32_vec,
    read_u32, read_u32_vec, u32_le, u32_vec_le, write_u32, write_u32_vec, CodecError,
};
use vstd::prelude::*;

verus! {

/// The flat cost a default entry charges.
pub const DEFAULT_FIXED_COST: u32 = 0;

/// Cost of one host function. The total charge is `cost` plus, for each
/// argument in order, its weight multiplied by the byte size of the data.
#[derive(Clone, PartialEq, Eq, Debug)]
pub struct HostFunction {
    /// How much the user is charged independent of argument sizes.
    pub cost: u32,
    /// All arguments in order and their associated cost per byte.
    pub arguments: Vec<u32>,
}

/// The mathematical value of a cost entry: the flat cost and the weights.
pub open spec fn hf_model(h: HostFunction) -> (u32, Seq<u32>) {
    (h.cost, h.arguments@)
}

/// A cost entry whose weight list fits behind a 32-bit length prefix.
pub open spec fn hf_model_wf(m: (u32, Seq<u32>)) -> bool {
    m.1.len() <= u32::MAX
}

/// The wire bytes of one cost entry: the flat cost, then the length-prefixed
/// weights, all little-endian.
pub open spec fn hf_bytes(m: (u32, Seq<u32>)) -> Seq<u8> {
    u32_le(m.0) + u32_vec_le(m.1)
}

/// The byte length of one cost entry on the wire.
pub open spec fn hf_len(m: (u32, Seq<u32>)) -> int {
    8 + 4 * (m.1.len() as int)
}

/// Reads one cost entry from the front of `s`.
pub open spec fn parse_host_function(s: Seq<u8>) -> Option<((u32, Seq<u32>), Seq<u8>)> {
    match parse_u32(s) {
        None => None,
        Some((cost, r)) => match parse_u32_vec(r) {
            None => None,
            Some((args, r2)) => Some(((cost, args), r2)),
        },
    }
}

/// The encoding of one cost entry is as long as `hf_len` says.
pub proof fn lemma_hf_bytes_len(m: (u32, Seq<u32>))
    requires
        hf_model_wf(m),
    ensures
        hf_bytes(m).len() == hf_len(m),
{
    lemma_u32_seq_le_len(m.1);
}

/// The concatenated encoding of a list of 32-bit integers has four bytes per
/// element.
pub proof fn lemma_u32_seq_le_len(s: Seq<u32>)
    ensures
        crate::bytesrepr::u32_seq_le(s).len() == 4 * s.len(),
    decreases s.len(),
{
    if s.len() > 0 {
        lemma_u32_seq_le_len(s.drop_first());
    }
}

/// Parsing bytes that begin with a cost entry's encoding yields that entry.
pub proof fn lemma_parse_host_function_of_encoding(m: (u32, Seq<u32>), rest: Seq<u8>)
    requires
        hf_model_wf(m),
    ensures
        parse_host_function(hf_bytes(m) + rest) == Some((m, rest)),
{
    let body = u32_vec_le(m.1) + rest;
    lemma_parse_u32_of_encoding(m.0, body);
    assert(hf_bytes(m) + rest =~= u32_le(m.0) + body);
    lemma_parse_u32_vec_of_encoding(m.1, rest);
}

impl HostFunction {
    /// A cost entry that fits behind a 32-bit length prefix.
    pub open spec fn wf(self) -> bool {
        hf_model_wf(hf_model(self))
    }

    /// The wire bytes of this cost entry.
    pub open spec fn wire_bytes(self) -> Seq<u8> {
        hf_bytes(hf_model(self))
    }

    /// A cost entry that charges `cost` flat and nothing per byte.
    pub fn fixed(cost: u32) -> (r: HostFunction)
        ensures
            r.cost == cost,
            r.arguments@ == Seq::<u32>::empty(),
    {
        Self { cost, arguments: Vec::new() }
    }

    /// Appends this entry's wire bytes to `out`.
    pub fn write_into(&self, out: &mut Vec<u8>)
        requires
            self.wf(),
        ensures
            final(out)@ == old(out)@ + self.wire_bytes(),
    {
        write_u32(out, self.cost);
        write_u32_vec(out, &self.arguments);
        proof {
            assert(out@ =~= old(out)@ + self.wire_bytes());
        }
    }

    /// This entry's wire bytes as a fresh buffer.
    pub fn to_bytes(&self) -> (r: Result<Vec<u8>, CodecError>)
        requires
            self.wf(),
        ensures
            r is Ok,
            (r matches Ok(v) ==> v@ == self.wire_bytes()),
    {
        let mut ret: Vec<u8> = Vec::new();
        self.write_into(&mut ret);
        Ok(ret)
    }

    /// The number of bytes `to_bytes` produces.
    pub fn serialized_length(&self) -> (r: usize)
        requires
            self.wf(),
            hf_len(hf_model(*self)) <= usize::MAX,
        ensures
            r == hf_len(hf_model(*self)),
            r == self.wire_bytes().len(),
    {
        proof {
            lemma_hf_bytes_len(hf_model(*self));
        }
        8 + 4 * self.arguments.len()
    }

    /// Reads one cost entry and returns it with the remaining bytes.
    pub fn from_bytes(bytes: &[u8]) -> (r: Result<(HostFunction, &[u8]), CodecError>)
        ensures
            r is Ok <==> parse_host_function(bytes@) is Some,
            (r matches Ok((h, rest)) ==> parse_host_function(bytes@) == Some((hf_model(h),
            rest@))),
            r is Err ==> r->Err_0 == CodecError::EarlyEndOfStream,
    {
        let (cost, r1) = match read_u32(bytes) {
            Ok(p) => p,
            Err(e) => {
                return Err(e);
            },
        };
        let (arguments, rest) = match read_u32_vec(r1) {
            Ok(p) => p,
            Err(e) => {
                return Err(e);
            },
        };
        Ok((Self { cost, arguments }, rest))
    }
}

impl Default for HostFunction {
    /// The default cost entry: the default fixed cost and no argument weights.
    fn default() -> (r: Self)
        ensures
            r.cost == DEFAULT_FIXED_COST,
            r.arguments@ == Seq::<u32>::empty(),
    {
        HostFunction::fixed(DEFAULT_FIXED_COST)
    }
}

/// The mathematical values of a list of cost entries.
pub open spec fn models_of(s: Seq<HostFunction>) -> Seq<(u32, Seq<u32>)> {
    s.map_values(|h: HostFunction| hf_model(h))
}

/// The concatenated wire bytes of a list of cost entries.
pub open spec fn hf_seq_bytes(ms: Seq<(u32, Seq<u32>)>) -> Seq<u8>
    decreases ms.len(),
{
    if ms.len() == 0 {
        Seq::empty()
    } else {
        hf_bytes(ms[0]) + hf_seq_bytes(ms.drop_first())
    }
}

/// The total wire length of a list of cost entries.
pub open spec fn hf_seq_len(ms: Seq<(u32, Seq<u32>)>) -> int
    decreases ms.len(),
{
    if ms.len() == 0 {
        0
    } else {
        hf_len(ms[0]) + hf_seq_len(ms.drop_first())
    }
}

/// Every entry of the list fits behind a 32-bit length prefix.
pub open spec fn hf_models_wf(ms: Seq<(u32, Seq<u32>)>) -> bool {
    forall|i: int| 0 <= i < ms.len() ==> hf_model_wf(#[trigger] ms[i])
}

/// Reads `n` consecutive cost entries from the front of `s`.
pub open spec fn parse_host_function_seq(s: Seq<u8>, n: nat) -> Option<
    (Seq<(u32, Seq<u32>)>, Seq<u8>),
>
    decreases n,
{
    if n == 0 {
        Some((Seq::empty(), s))
    } else {
        match parse_host_function(s) {
            None => None,
            Some((m, r)) => match parse_host_function_seq(r, (n - 1) as nat) {
                None => None,
                Some((ms, r2)) => Some((seq![m] + ms, r2)),
            },
        }
    }
}

/// Appending one entry extends the encoding by that entry's bytes.
pub proof fn lemma_hf_seq_bytes_push(ms: Seq<(u32, Seq<u32>)>, m: (u32, Seq<u32>))
    ensures
        hf_seq_bytes(ms.push(m)) == hf_seq_bytes(ms) + hf_bytes(m),
    decreases ms.len(),
{
    if ms.len() == 0 {
        assert(ms.push(m)[0] == m);
        assert(ms.push(m).drop_first() =~= Seq::<(u32, Seq<u32>)>::empty());
        assert(hf_bytes(m) + hf_seq_bytes(Seq::<(u32, Seq<u32>)>::empty()) =~= hf_bytes(m));
        assert(hf_seq_bytes(ms) + hf_bytes(m) =~= hf_bytes(m));
    } else {
        lemma_hf_seq_bytes_push(ms.drop_first(), m);
        assert(ms.push(m).drop_first() =~= ms.drop_first().push(m));
        assert(ms.push(m)[0] == ms[0]);
        assert(hf_bytes(ms[0]) + (hf_seq_bytes(ms.drop_first()) + hf_bytes(m)) =~= (hf_bytes(
            ms[0]) + hf_seq_bytes(ms.drop_first())) + hf_bytes(m));
    }
}

/// Appending one entry adds its length to the total.
pub proof fn lemma_hf_seq_len_push(ms: Seq<(u32, Seq<u32>)>, m: (u32, Seq<u32>))
    ensures
        hf_seq_len(ms.push(m)) == hf_seq_len(ms) + hf_len(m),
    decreases ms.len(),
{
    if ms.len() == 0 {
        assert(ms.push(m)[0] == m);
        assert(ms.push(m).drop_first() =~= Seq::<(u32, Seq<u32>)>::empty());
        assert(hf_seq_len(Seq::<(u32, Seq<u32>)>::empty()) == 0);
        assert(hf_seq_len(ms.push(m)) == hf_len(m));
    } else {
        lemma_hf_seq_len_push(ms.drop_first(), m);
        assert(ms.push(m).drop_first() =~= ms.drop_first().push(m));
        assert(ms.push(m)[0] == ms[0]);
        assert(hf_seq_len(ms.push(m)) == hf_len(ms[0]) + hf_seq_len(ms.drop_first().push(m)));
    }
}

/// The total wire length of a list of cost entries is never negative.
pub proof fn lemma_hf_seq_len_nonneg(ms: Seq<(u32, Seq<u32>)>)
    ensures
        hf_seq_len(ms) >= 0,
    decreases ms.len(),
{
    if ms.len() > 0 {
        lemma_hf_seq_len_nonneg(ms.drop_first());
    }
}

/// Walking one entry moves its length from the tail to the head of the sum.
pub proof fn lemma_hf_seq_len_step(ms: Seq<(u32, Seq<u32>)>, i: int)
    requires
        0 <= i < ms.len(),
    ensures
        hf_seq_len(ms.skip(i)) == hf_len(ms[i]) + hf_seq_len(ms.skip(i + 1)),
{
    assert(ms.skip(i)[0] == ms[i]);
    assert(ms.skip(i).drop_first() =~= ms.skip(i + 1));
}

/// Parsing bytes that begin with the encoding of a list of cost entries
/// yields that list.
pub proof fn lemma_parse_host_function_seq_of_encoding(ms: Seq<(u32, Seq<u32>)>, rest: Seq<u8>)
    requires
        hf_models_wf(ms),
    ensures
        parse_host_function_seq(hf_seq_bytes(ms) + rest, ms.len()) == Some((ms, rest)),
    decreases ms.len(),
{
    if ms.len() == 0 {
        assert(hf_seq_bytes(ms) + rest =~= rest);
        assert(Seq::<(u32, Seq<u32>)>::empty() =~= ms);
    } else {
        let tail_bytes = hf_seq_bytes(ms.drop_first()) + rest;
        lemma_parse_host_function_of_encoding(ms[0], tail_bytes);
        assert(hf_seq_bytes(ms) + rest =~= hf_bytes(ms[0]) + tail_bytes);
        assert(hf_models_wf(ms.drop_first())) by {
            assert(forall|i: int| 0 <= i < ms.drop_first().len() ==> ms.drop_first()[i] == ms[i
                + 1]);
        }
        lemma_parse_host_function_seq_of_encoding(ms.drop_first(), rest);
        assert(seq![ms[0]] + ms.drop_first() =~= ms);
    }
}

/// Reads `n` consecutive cost entries and returns them with the rest.
fn read_host_functions(bytes: &[u8], n: u32) -> (r: Result<
    (Vec<HostFunction>, &[u8]),
    CodecError,
>)
    ensures
        r is Ok <==> parse_host_function_seq(bytes@, n as nat) is Some,
        (r matches Ok((v, rest)) ==> parse_host_function_seq(bytes@, n as nat) == Some((models_of(
        v@), rest@)) && v@.len() == n),
        r is Err ==> r->Err_0 == CodecError::EarlyEndOfStream,
{
    let mut cur = bytes;
    let mut acc: Vec<HostFunction> = Vec::new();
    let mut remaining: u32 = n;
    while remaining > 0
        invariant
            acc@.len() + remaining == n,
            parse_host_function_seq(cur@, remaining as nat) matches Some((ms, r2))
                ==> parse_host_function_seq(bytes@, n as nat) == Some((models_of(acc@) + ms, r2)),
            parse_host_function_seq(cur@, remaining as nat) is None ==> parse_host_function_seq(
                bytes@, n as nat) is None,
        decreases remaining,
    {
        let (h, next) = match HostFunction::from_bytes(cur) {
            Ok(p) => p,
            Err(e) => {
                return Err(e);
            },
        };
        proof {
            let tail = parse_host_function_seq(next@, (remaining - 1) as nat);
            if tail is Some {
                let (ms, r2) = tail->Some_0;
                assert(parse_host_function_seq(cur@, remaining as nat) == Some((seq![hf_model(h)]
                    + ms, r2)));
                assert(models_of(acc@.push(h)) + ms =~= models_of(acc@) + (seq![hf_model(h)]
                    + ms));
            }
        }
        acc.push(h);
        cur = next;
        remaining = remaining - 1;
    }
    proof {
        assert(parse_host_function_seq(cur@, 0) == Some((Seq::<(u32, Seq<u32>)>::empty(), cur@)));
        assert(models_of(acc@) + Seq::<(u32, Seq<u32>)>::empty() =~= models_of(acc@));
    }
    Ok((acc, cur))
}

/// The table of costs of all host functions.
#[derive(Clone, PartialEq, Eq, Debug)]
pub struct HostFunctionCosts {
    pub read_value: HostFunction,
    pub read_value_local: HostFunction,
    pub write: HostFunction,
    pub write_local: HostFunction,
    pub add: HostFunction,
    pub add_local: HostFunction,
    pub new_uref: HostFunction,
    pub load_named_keys: HostFunction,
    pub ret: HostFunction,
    pub get_key: HostFunction,
    pub has_key: HostFunction,
    pub put_key: HostFunction,
    pub remove_key: HostFunction,
    pub revert: HostFunction,
    pub is_valid_uref: HostFunction,
    pub add_associated_key: HostFunction,
    pub remove_associated_key: HostFunction,
    pub update_associated_key: HostFunction,
    pub set_action_threshold: HostFunction,
    pub get_caller: HostFunction,
    pub get_blocktime: HostFunction,
    pub create_purse: HostFunction,
    pub transfer_to_account: HostFunction,
    pub transfer_from_purse_to_account: HostFunction,
    pub transfer_from_purse_to_purse: HostFunction,
    pub get_balance: HostFunction,
    pub get_phase: HostFunction,
    pub get_system_contract: HostFunction,
    pub get_main_purse: HostFunction,
    pub read_host_buffer: HostFunction,
    pub create_contract_package_at_hash: HostFunction,
    pub create_contract_user_group: HostFunction,
    pub add_contract_version: HostFunction,
    pub disable_contract_version: HostFunction,
    pub call_contract: HostFunction,
    pub call_versioned_contract: HostFunction,
    pub get_named_arg_size: HostFunction,
    pub get_named_arg: HostFunction,
    pub remove_contract_user_group: HostFunction,
    pub provision_contract_user_group_uref: HostFunction,
    pub remove_contract_user_group_urefs: HostFunction,
    pub print: HostFunction,
}

impl HostFunctionCosts {
    /// The mathematical values of the cost entries, in wire order.
    pub open spec fn field_models(self) -> Seq<(u32, Seq<u32>)> {
        seq![
            hf_model(self.read_value),
            hf_model(self.read_value_local),
            hf_model(self.write),
            hf_model(self.write_local),
            hf_model(self.add),
            hf_model(self.add_local),
            hf_model(self.new_uref),
            hf_model(self.load_named_keys),
            hf_model(self.ret),
            hf_model(self.get_key),
            hf_model(self.has_key),
            hf_model(self.put_key),
            hf_model(self.remove_key),
            hf_model(self.revert),
            hf_model(self.is_valid_uref),
            hf_model(self.add_associated_key),
            hf_model(self.remove_associated_key),
            hf_model(self.update_associated_key),
            hf_model(self.set_action_threshold),
            hf_model(self.get_caller),
            hf_model(self.get_blocktime),
            hf_model(self.create_purse),
            hf_model(self.transfer_to_account),
            hf_model(self.transfer_from_purse_to_account),
            hf_model(self.transfer_from_purse_to_purse),
            hf_model(self.get_balance),
            hf_model(self.get_phase),
            hf_model(self.get_system_contract),
            hf_model(self.get_main_purse),
            hf_model(self.read_host_buffer),
            hf_model(self.create_contract_package_at_hash),
            hf_model(self.create_contract_user_group),
            hf_model(self.add_contract_version),
            hf_model(self.disable_contract_version),
            hf_model(self.call_contract),
            hf_model(self.call_versioned_contract),
            hf_model(self.get_named_arg_size),
            hf_model(self.get_named_arg),
            hf_model(self.remove_contract_user_group),
            hf_model(self.provision_contract_user_group_uref),
            hf_model(self.remove_contract_user_group_urefs),
            hf_model(self.print),
        ]
    }

    /// Every entry of the table fits behind a 32-bit length prefix.
    pub open spec fn wf(self) -> bool {
        self.read_value.wf() && self.read_value_local.wf() && self.write.wf() && self.write_local.wf() && self.add.wf() && self.add_local.wf() && self.new_uref.wf() && self.load_named_keys.wf() && self.ret.wf() && self.get_key.wf() && self.has_key.wf() && self.put_key.wf() && self.remove_key.wf() && self.revert.wf() && self.is_valid_uref.wf() && self.add_associated_key.wf() && self.remove_associated_key.wf() && self.update_associated_key.wf() && self.set_action_threshold.wf() && self.get_caller.wf() && self.get_blocktime.wf() && self.create_purse.wf() && self.transfer_to_account.wf() && self.transfer_from_purse_to_account.wf() && self.transfer_from_purse_to_purse.wf() && self.get_balance.wf() && self.get_phase.wf() && self.get_system_contract.wf() && self.get_main_purse.wf() && self.read_host_buffer.wf() && self.create_contract_package_at_hash.wf() && self.create_contract_user_group.wf() && self.add_contract_version.wf() && self.disable_contract_version.wf() && self.call_contract.wf() && self.call_versioned_contract.wf() && self.get_named_arg_size.wf() && self.get_named_arg.wf() && self.remove_contract_user_group.wf() && self.provision_contract_user_group_uref.wf() && self.remove_contract_user_group_urefs.wf() && self.print.wf()
    }

    /// The wire bytes of the whole table: each entry in order.
    pub open spec fn wire_bytes(self) -> Seq<u8> {
        hf_seq_bytes(self.field_models())
    }

    proof fn lemma_models_wf(self)
        requires
            self.wf(),
        ensures
            hf_models_wf(self.field_models()),
    {
        assert forall|i: int| 0 <= i < self.field_models().len() implies hf_model_wf(
            #[trigger] self.field_models()[i],
        ) by {
            let ms = self.field_models();
            assert(ms[0] == hf_model(self.read_value));
            assert(ms[1] == hf_model(self.read_value_local));
            assert(ms[2] == hf_model(self.write));
            assert(ms[3] == hf_model(self.write_local));
            assert(ms[4] == hf_model(self.add));
            assert(ms[5] == hf_model(self.add_local));
            assert(ms[6] == hf_model(self.new_uref));
            assert(ms[7] == hf_model(self.load_named_keys));
            assert(ms[8] == hf_model(self.ret));
            assert(ms[9] == hf_model(self.get_key));
            assert(ms[10] == hf_model(self.has_key));
            assert(ms[11] == hf_model(self.put_key));
            assert(ms[12] == hf_model(self.remove_key));
            assert(ms[13] == hf_model(self.revert));
            assert(ms[14] == hf_model(self.is_valid_uref));
            assert(ms[15] == hf_model(self.add_associated_key));
            assert(ms[16] == hf_model(self.remove_associated_key));
            assert(ms[17] == hf_model(self.update_associated_key));
            assert(ms[18] == hf_model(self.set_action_threshold));
            assert(ms[19] == hf_model(self.get_caller));
            assert(ms[20] == hf_model(self.get_blocktime));
            assert(ms[21] == hf_model(self.create_purse));
            assert(ms[22] == hf_model(self.transfer_to_account));
            assert(ms[23] == hf_model(self.transfer_from_purse_to_account));
            assert(ms[24] == hf_model(self.transfer_from_purse_to_purse));
            assert(ms[25] == hf_model(self.get_balance));
            assert(ms[26] == hf_model(self.get_phase));
            assert(ms[27] == hf_model(self.get_system_contract));
            assert(ms[28] == hf_model(self.get_main_purse));
            assert(ms[29] == hf_model(self.read_host_buffer));
            assert(ms[30] == hf_model(self.create_contract_package_at_hash));
            assert(ms[31] == hf_model(self.create_contract_user_group));
            assert(ms[32] == hf_model(self.add_contract_version));
            assert(ms[33] == hf_model(self.disable_contract_version));
            assert(ms[34] == hf_model(self.call_contract));
            assert(ms[35] == hf_model(self.call_versioned_contract));
            assert(ms[36] == hf_model(self.get_named_arg_size));
            assert(ms[37] == hf_model(self.get_named_arg));
            assert(ms[38] == hf_model(self.remove_contract_user_group));
            assert(ms[39] == hf_model(self.provision_contract_user_group_uref));
            assert(ms[40] == hf_model(self.remove_contract_user_group_urefs));
            assert(ms[41] == hf_model(self.print));
        }
    }

    /// The whole table's wire bytes as a fresh buffer.
    #[verifier::rlimit(100)]
    #[verifier::spinoff_prover]
    pub fn to_bytes(&self) -> (r: Result<Vec<u8>, CodecError>)
        requires
            self.wf(),
        ensures
            r is Ok,
            (r matches Ok(v) ==> v@ == self.wire_bytes()),
    {
        let ghost ms = self.field_models();
        let mut ret: Vec<u8> = Vec::new();
        proof {
            assert(ms.take(0) =~= Seq::<(u32, Seq<u32>)>::empty());
        }
        self.read_value.write_into(&mut ret);
        proof {
            lemma_hf_seq_bytes_push(ms.take(0), ms[0]);
            assert(ms.take(1) =~= ms.take(0).push(ms[0]));
            assert(ret@ == hf_seq_bytes(ms.take(1)));
        }
        self.read_value_local.write_into(&mut ret);
        proof {
            lemma_hf_seq_bytes_push(ms.take(1), ms[1]);
            assert(ms.take(2) =~= ms.take(1).push(ms[1]));
            assert(ret@ == hf_seq_bytes(ms.take(2)));
        }
        self.write.write_into(&mut ret);
        proof {
            lemma_hf_seq_bytes_push(ms.take(2), ms[2]);
            assert(ms.take(3) =~= ms.take(2).push(ms[2]));
            assert(ret@ == hf_seq_bytes(ms.take(3)));
        }
        self.write_local.write_into(&mut ret);
        proof {
            lemma_hf_seq_bytes_push(ms.take(3), ms[3]);
            assert(ms.take(4) =~= ms.take(3).push(ms[3]));
            assert(ret@ == hf_seq_bytes(ms.take(4)));
        }
        self.add.write_into(&mut ret);
        proof {
            lemma_hf_seq_bytes_push(ms.take(4), ms[4]);
            assert(ms.take(5) =~= ms.take(4).push(ms[4]));
            assert(ret@ == hf_seq_bytes(ms.take(5)));
        }
        self.add_local.write_into(&mut ret);
        proof {
            lemma_hf_seq_bytes_push(ms.take(5), ms[5]);
            assert(ms.take(6) =~= ms.take(5).push(ms[5]));
            assert(ret@ == hf_seq_bytes(ms.take(6)));
        }
        self.new_uref.write_into(&mut ret);
        proof {
            lemma_hf_seq_bytes_push(ms.take(6), ms[6]);
            assert(ms.take(7) =~= ms.take(6).push(ms[6]));
            assert(ret@ == hf_seq_bytes(ms.take(7)));
        }
        self.load_named_keys.write_into(&mut ret);
        proof {
            lemma_hf_seq_bytes_push(ms.take(7), ms[7]);
            assert(ms.take(8) =~= ms.take(7).push(ms[7]));
            assert(ret@ == hf_seq_bytes(ms.take(8)));
        }
        self.ret.write_into(&mut ret);
        proof {
            lemma_hf_seq_bytes_push(ms.take(8), ms[8]);
            assert(ms.take(9) =~= ms.take(8).push(ms[8]));
            assert(ret@ == hf_seq_bytes(ms.take(9)));
        }
        self.get_key.write_into(&mut ret);
        proof {
            lemma_hf_seq_bytes_push(ms.take(9), ms[9]);
            assert(ms.take(10) =~= ms.take(9).push(ms[9]));
            assert(ret@ == hf_seq_bytes(ms.take(10)));
        }
        self.has_key.write_into(&mut ret);
        proof {
            lemma_hf_seq_bytes_push(ms.take(10), ms[10]);
            assert(ms.take(11) =~= ms.take(10).push(ms[10]));
            assert(ret@ == hf_seq_bytes(ms.take(11)));
        }
        self.put_key.write_into(&mut ret);
        proof {
            lemma_hf_seq_bytes_push(ms.take(11), ms[11]);
            assert(ms.take(12) =~= ms.take(11).push(ms[11]));
            assert(ret@ == hf_seq_bytes(ms.take(12)));
        }
        self.remove_key.write_into(&mut ret);
        proof {
            lemma_hf_seq_bytes_push(ms.take(12), ms[12]);
            assert(ms.take(13) =~= ms.take(12).push(ms[12]));
            assert(ret@ == hf_seq_bytes(ms.take(13)));
        }
        self.revert.write_into(&mut ret);
        proof {
            lemma_hf_seq_bytes_push(ms.take(13), ms[13]);
            assert(ms.take(14) =~= ms.take(13).push(ms[13]));
            assert(ret@ == hf_seq_bytes(ms.take(14)));
        }
        self.is_valid_uref.write_into(&mut ret);
        proof {
            lemma_hf_seq_bytes_push(ms.take(14), ms[14]);
            assert(ms.take(15) =~= ms.take(14).push(ms[14]));
            assert(ret@ == hf_seq_bytes(ms.take(15)));
        }
        self.add_associated_key.write_into(&mut ret);
        proof {
            lemma_hf_seq_bytes_push(ms.take(15), ms[15]);
            assert(ms.take(16) =~= ms.take(15).push(ms[15]));
            assert(ret@ == hf_seq_bytes(ms.take(16)));
        }
        self.remove_associated_key.write_into(&mut ret);
        proof {
            lemma_hf_seq_bytes_push(ms.take(16), ms[16]);
            assert(ms.take(17) =~= ms.take(16).push(ms[16]));
            assert(ret@ == hf_seq_bytes(ms.take(17)));
        }
        self.update_associated_key.write_into(&mut ret);
        proof {
            lemma_hf_seq_bytes_push(ms.take(17), ms[17]);
            assert(ms.take(18) =~= ms.take(17).push(ms[17]));
            assert(ret@ == hf_seq_bytes(ms.take(18)));
        }
        self.set_action_threshold.write_into(&mut ret);
        proof {
            lemma_hf_seq_bytes_push(ms.take(18), ms[18]);
            assert(ms.take(19) =~= ms.take(18).push(ms[18]));
            assert(ret@ == hf_seq_bytes(ms.take(19)));
        }
        self.get_caller.write_into(&mut ret);
        proof {
            lemma_hf_seq_bytes_push(ms.take(19), ms[19]);
            assert(ms.take(20) =~= ms.take(19).push(ms[19]));
            assert(ret@ == hf_seq_bytes(ms.take(20)));
        }
        self.get_blocktime.write_into(&mut ret);
        proof {
            lemma_hf_seq_bytes_push(ms.take(20), ms[20]);
            assert(ms.take(21) =~= ms.take(20).push(ms[20]));
            assert(ret@ == hf_seq_bytes(ms.take(21)));
        }
        self.create_purse.write_into(&mut ret);
        proof {
            lemma_hf_seq_bytes_push(ms.take(21), ms[21]);
            assert(ms.take(22) =~= ms.take(21).push(ms[21]));
            assert(ret@ == hf_seq_bytes(ms.take(22)));
        }
        self.transfer_to_account.write_into(&mut ret);
        proof {
            lemma_hf_seq_bytes_push(ms.take(22), ms[22]);
            assert(ms.take(23) =~= ms.take(22).push(ms[22]));
            assert(ret@ == hf_seq_bytes(ms.take(23)));
        }
        self.transfer_from_purse_to_account.write_into(&mut ret);
        proof {
            lemma_hf_seq_bytes_push(ms.take(23), ms[23]);
            assert(ms.take(24) =~= ms.take(23).push(ms[23]));
            assert(ret@ == hf_seq_bytes(ms.take(24)));
        }
        self.transfer_from_purse_to_purse.write_into(&mut ret);
        proof {
            lemma_hf_seq_bytes_push(ms.take(24), ms[24]);
            assert(ms.take(25) =~= ms.take(24).push(ms[24]));
            assert(ret@ == hf_seq_bytes(ms.take(25)));
        }
        self.get_balance.write_into(&mut ret);
        proof {
            lemma_hf_seq_bytes_push(ms.take(25), ms[25]);
            assert(ms.take(26) =~= ms.take(25).push(ms[25]));
            assert(ret@ == hf_seq_bytes(ms.take(26)));
        }
        self.get_phase.write_into(&mut ret);
        proof {
            lemma_hf_seq_bytes_push(ms.take(26), ms[26]);
            assert(ms.take(27) =~= ms.take(26).push(ms[26]));
            assert(ret@ == hf_seq_bytes(ms.take(27)));
        }
        self.get_system_contract.write_into(&mut ret);
        proof {
            lemma_hf_seq_bytes_push(ms.take(27), ms[27]);
            assert(ms.take(28) =~= ms.take(27).push(ms[27]));
            assert(ret@ == hf_seq_bytes(ms.take(28)));
        }
        self.get_main_purse.write_into(&mut ret);
        proof {
            lemma_hf_seq_bytes_push(ms.take(28), ms[28]);
            assert(ms.take(29) =~= ms.take(28).push(ms[28]));
            assert(ret@ == hf_seq_bytes(ms.take(29)));
        }
        self.read_host_buffer.write_into(&mut ret);
        proof {
            lemma_hf_seq_bytes_push(ms.take(29), ms[29]);
            assert(ms.take(30) =~= ms.take(29).push(ms[29]));
            assert(ret@ == hf_seq_bytes(ms.take(30)));
        }
        self.create_contract_package_at_hash.write_into(&mut ret);
        proof {
            lemma_hf_seq_bytes_push(ms.take(30), ms[30]);
            assert(ms.take(31) =~= ms.take(30).push(ms[30]));
            assert(ret@ == hf_seq_bytes(ms.take(31)));
        }
        self.create_contract_user_group.write_into(&mut ret);
        proof {
            lemma_hf_seq_bytes_push(ms.take(31), ms[31]);
            assert(ms.take(32) =~= ms.take(31).push(ms[31]));
            assert(ret@ == hf_seq_bytes(ms.take(32)));
        }
        self.add_contract_version.write_into(&mut ret);
        proof {
            lemma_hf_seq_bytes_push(ms.take(32), ms[32]);
            assert(ms.take(33) =~= ms.take(32).push(ms[32]));
            assert(ret@ == hf_seq_bytes(ms.take(33)));
        }
        self.disable_contract_version.write_into(&mut ret);
        proof {
            lemma_hf_seq_bytes_push(ms.take(33), ms[33]);
            assert(ms.take(34) =~= ms.take(33).push(ms[33]));
            assert(ret@ == hf_seq_bytes(ms.take(34)));
        }
        self.call_contract.write_into(&mut ret);
        proof {
            lemma_hf_seq_bytes_push(ms.take(34), ms[34]);
            assert(ms.take(35) =~= ms.take(34).push(ms[34]));
            assert(ret@ == hf_seq_bytes(ms.take(35)));
        }
        self.call_versioned_contract.write_into(&mut ret);
        proof {
            lemma_hf_seq_bytes_push(ms.take(35), ms[35]);
            assert(ms.take(36) =~= ms.take(35).push(ms[35]));
            assert(ret@ == hf_seq_bytes(ms.take(36)));
        }
        self.get_named_arg_size.write_into(&mut ret);
        proof {
            lemma_hf_seq_bytes_push(ms.take(36), ms[36]);
            assert(ms.take(37) =~= ms.take(36).push(ms[36]));
            assert(ret@ == hf_seq_bytes(ms.take(37)));
        }
        self.get_named_arg.write_into(&mut ret);
        proof {
            lemma_hf_seq_bytes_push(ms.take(37), ms[37]);
            assert(ms.take(38) =~= ms.take(37).push(ms[37]));
            assert(ret@ == hf_seq_bytes(ms.take(38)));
        }
        self.remove_contract_user_group.write_into(&mut ret);
        proof {
            lemma_hf_seq_bytes_push(ms.take(38), ms[38]);
            assert(ms.take(39) =~= ms.take(38).push(ms[38]));
            assert(ret@ == hf_seq_bytes(ms.take(39)));
        }
        self.provision_contract_user_group_uref.write_into(&mut ret);
        proof {
            lemma_hf_seq_bytes_push(ms.take(39), ms[39]);
            assert(ms.take(40) =~= ms.take(39).push(ms[39]));
            assert(ret@ == hf_seq_bytes(ms.take(40)));
        }
        self.remove_contract_user_group_urefs.write_into(&mut ret);
        proof {
            lemma_hf_seq_bytes_push(ms.take(40), ms[40]);
            assert(ms.take(41) =~= ms.take(40).push(ms[40]));
            assert(ret@ == hf_seq_bytes(ms.take(41)));
        }
        self.print.write_into(&mut ret);
        proof {
            lemma_hf_seq_bytes_push(ms.take(41), ms[41]);
            assert(ms.take(42) =~= ms.take(41).push(ms[41]));
            assert(ret@ == hf_seq_bytes(ms.take(42)));
        }
        proof {
            assert(ms.take(42) =~= ms);
        }
        Ok(ret)
    }

    /// The wire length of the whole table, entry by entry.
    pub open spec fn wire_len(self) -> int {
        hf_len(hf_model(self.read_value))
            + hf_len(hf_model(self.read_value_local))
            + hf_len(hf_model(self.write))
            + hf_len(hf_model(self.write_local))
            + hf_len(hf_model(self.add))
            + hf_len(hf_model(self.add_local))
            + hf_len(hf_model(self.new_uref))
            + hf_len(hf_model(self.load_named_keys))
            + hf_len(hf_model(self.ret))
            + hf_len(hf_model(self.get_key))
            + hf_len(hf_model(self.has_key))
            + hf_len(hf_model(self.put_key))
            + hf_len(hf_model(self.remove_key))
            + hf_len(hf_model(self.revert))
            + hf_len(hf_model(self.is_valid_uref))
            + hf_len(hf_model(self.add_associated_key))
            + hf_len(hf_model(self.remove_associated_key))
            + hf_len(hf_model(self.update_associated_key))
            + hf_len(hf_model(self.set_action_threshold))
            + hf_len(hf_model(self.get_caller))
            + hf_len(hf_model(self.get_blocktime))
            + hf_len(hf_model(self.create_purse))
            + hf_len(hf_model(self.transfer_to_account))
            + hf_len(hf_model(self.transfer_from_purse_to_account))
            + hf_len(hf_model(self.transfer_from_purse_to_purse))
            + hf_len(hf_model(self.get_balance))
            + hf_len(hf_model(self.get_phase))
            + hf_len(hf_model(self.get_system_contract))
            + hf_len(hf_model(self.get_main_purse))
            + hf_len(hf_model(self.read_host_buffer))
            + hf_len(hf_model(self.create_contract_package_at_hash))
            + hf_len(hf_model(self.create_contract_user_group))
            + hf_len(hf_model(self.add_contract_version))
            + hf_len(hf_model(self.disable_contract_version))
            + hf_len(hf_model(self.call_contract))
            + hf_len(hf_model(self.call_versioned_contract))
            + hf_len(hf_model(self.get_named_arg_size))
            + hf_len(hf_model(self.get_named_arg))
            + hf_len(hf_model(self.remove_contract_user_group))
            + hf_len(hf_model(self.provision_contract_user_group_uref))
            + hf_len(hf_model(self.remove_contract_user_group_urefs))
            + hf_len(hf_model(self.print))
    }

    /// The summed per-entry lengths agree with the length of the entry
    /// list's encoding.
    #[verifier::rlimit(100)]
    #[verifier::spinoff_prover]
    pub proof fn lemma_wire_len_agrees(self)
        ensures
            hf_seq_len(self.field_models()) == self.wire_len(),
    {
        let ms = self.field_models();
        assert(ms.skip(0) =~= ms);
        assert(ms[0] == hf_model(self.read_value));
        lemma_hf_seq_len_step(ms, 0);
        assert(ms[1] == hf_model(self.read_value_local));
        lemma_hf_seq_len_step(ms, 1);
        assert(ms[2] == hf_model(self.write));
        lemma_hf_seq_len_step(ms, 2);
        assert(ms[3] == hf_model(self.write_local));
        lemma_hf_seq_len_step(ms, 3);
        assert(ms[4] == hf_model(self.add));
        lemma_hf_seq_len_step(ms, 4);
        assert(ms[5] == hf_model(self.add_local));
        lemma_hf_seq_len_step(ms, 5);
        assert(ms[6] == hf_model(self.new_uref));
        lemma_hf_seq_len_step(ms, 6);
        assert(ms[7] == hf_model(self.load_named_keys));
        lemma_hf_seq_len_step(ms, 7);
        assert(ms[8] == hf_model(self.ret));
        lemma_hf_seq_len_step(ms, 8);
        assert(ms[9] == hf_model(self.get_key));
        lemma_hf_seq_len_step(ms, 9);
        assert(ms[10] == hf_model(self.has_key));
        lemma_hf_seq_len_step(ms, 10);
        assert(ms[11] == hf_model(self.put_key));
        lemma_hf_seq_len_step(ms, 11);
        assert(ms[12] == hf_model(self.remove_key));
        lemma_hf_seq_len_step(ms, 12);
        assert(ms[13] == hf_model(self.revert));
        lemma_hf_seq_len_step(ms, 13);
        assert(ms[14] == hf_model(self.is_valid_uref));
        lemma_hf_seq_len_step(ms, 14);
        assert(ms[15] == hf_model(self.add_associated_key));
        lemma_hf_seq_len_step(ms, 15);
        assert(ms[16] == hf_model(self.remove_associated_key));
        lemma_hf_seq_len_step(ms, 16);
        assert(ms[17] == hf_model(self.update_associated_key));
        lemma_hf_seq_len_step(ms, 17);
        assert(ms[18] == hf_model(self.set_action_threshold));
        lemma_hf_seq_len_step(ms, 18);
        assert(ms[19] == hf_model(self.get_caller));
        lemma_hf_seq_len_step(ms, 19);
        assert(ms[20] == hf_model(self.get_blocktime));
        lemma_hf_seq_len_step(ms, 20);
        assert(ms[21] == hf_model(self.create_purse));
        lemma_hf_seq_len_step(ms, 21);
        assert(ms[22] == hf_model(self.transfer_to_account));
        lemma_hf_seq_len_step(ms, 22);
        assert(ms[23] == hf_model(self.transfer_from_purse_to_account));
        lemma_hf_seq_len_step(ms, 23);
        assert(ms[24] == hf_model(self.transfer_from_purse_to_purse));
        lemma_hf_seq_len_step(ms, 24);
        assert(ms[25] == hf_model(self.get_balance));
        lemma_hf_seq_len_step(ms, 25);
        assert(ms[26] == hf_model(self.get_phase));
        lemma_hf_seq_len_step(ms, 26);
        assert(ms[27] == hf_model(self.get_system_contract));
        lemma_hf_seq_len_step(ms, 27);
        assert(ms[28] == hf_model(self.get_main_purse));
        lemma_hf_seq_len_step(ms, 28);
        assert(ms[29] == hf_model(self.read_host_buffer));
        lemma_hf_seq_len_step(ms, 29);
        assert(ms[30] == hf_model(self.create_contract_package_at_hash));
        lemma_hf_seq_len_step(ms, 30);
        assert(ms[31] == hf_model(self.create_contract_user_group));
        lemma_hf_seq_len_step(ms, 31);
        assert(ms[32] == hf_model(self.add_contract_version));
        lemma_hf_seq_len_step(ms, 32);
        assert(ms[33] == hf_model(self.disable_contract_version));
        lemma_hf_seq_len_step(ms, 33);
        assert(ms[34] == hf_model(self.call_contract));
        lemma_hf_seq_len_step(ms, 34);
        assert(ms[35] == hf_model(self.call_versioned_contract));
        lemma_hf_seq_len_step(ms, 35);
        assert(ms[36] == hf_model(self.get_named_arg_size));
        lemma_hf_seq_len_step(ms, 36);
        assert(ms[37] == hf_model(self.get_named_arg));
        lemma_hf_seq_len_step(ms, 37);
        assert(ms[38] == hf_model(self.remove_contract_user_group));
        lemma_hf_seq_len_step(ms, 38);
        assert(ms[39] == hf_model(self.provision_contract_user_group_uref));
        lemma_hf_seq_len_step(ms, 39);
        assert(ms[40] == hf_model(self.remove_contract_user_group_urefs));
        lemma_hf_seq_len_step(ms, 40);
        assert(ms[41] == hf_model(self.print));
        lemma_hf_seq_len_step(ms, 41);
        assert(ms.skip(42) =~= Seq::<(u32, Seq<u32>)>::empty());
    }

    /// The number of bytes `to_bytes` produces.
    #[verifier::rlimit(100)]
    #[verifier::spinoff_prover]
    pub fn serialized_length(&self) -> (r: usize)
        requires
            self.wf(),
            hf_seq_len(self.field_models()) <= usize::MAX,
        ensures
            r == hf_seq_len(self.field_models()),
    {
        proof {
            self.lemma_wire_len_agrees();
        }
        let mut total: usize = 0;
        total = total + self.read_value.serialized_length();
        total = total + self.read_value_local.serialized_length();
        total = total + self.write.serialized_length();
        total = total + self.write_local.serialized_length();
        total = total + self.add.serialized_length();
        total = total + self.add_local.serialized_length();
        total = total + self.new_uref.serialized_length();
        total = total + self.load_named_keys.serialized_length();
        total = total + self.ret.serialized_length();
        total = total + self.get_key.serialized_length();
        total = total + self.has_key.serialized_length();
        total = total + self.put_key.serialized_length();
        total = total + self.remove_key.serialized_length();
        total = total + self.revert.serialized_length();
        total = total + self.is_valid_uref.serialized_length();
        total = total + self.add_associated_key.serialized_length();
        total = total + self.remove_associated_key.serialized_length();
        total = total + self.update_associated_key.serialized_length();
        total = total + self.set_action_threshold.serialized_length();
        total = total + self.get_caller.serialized_length();
        total = total + self.get_blocktime.serialized_length();
        total = total + self.create_purse.serialized_length();
        total = total + self.transfer_to_account.serialized_length();
        total = total + self.transfer_from_purse_to_account.serialized_length();
        total = total + self.transfer_from_purse_to_purse.serialized_length();
        total = total + self.get_balance.serialized_length();
        total = total + self.get_phase.serialized_length();
        total = total + self.get_system_contract.serialized_length();
        total = total + self.get_main_purse.serialized_length();
        total = total + self.read_host_buffer.serialized_length();
        total = total + self.create_contract_package_at_hash.serialized_length();
        total = total + self.create_contract_user_group.serialized_length();
        total = total + self.add_contract_version.serialized_length();
        total = total + self.disable_contract_version.serialized_length();
        total = total + self.call_contract.serialized_length();
        total = total + self.call_versioned_contract.serialized_length();
        total = total + self.get_named_arg_size.serialized_length();
        total = total + self.get_named_arg.serialized_length();
        total = total + self.remove_contract_user_group.serialized_length();
        total = total + self.provision_contract_user_group_uref.serialized_length();
        total = total + self.remove_contract_user_group_urefs.serialized_length();
        total = total + self.print.serialized_length();
        proof {
            assert(total == self.wire_len());
        }
        total
    }

    /// Reads a whole table and returns it with the remaining bytes.
    pub fn from_bytes(bytes: &[u8]) -> (r: Result<(HostFunctionCosts, &[u8]), CodecError>)
        ensures
            r is Ok <==> parse_host_function_costs(bytes@) is Some,
            (r matches Ok((c, rest)) ==> parse_host_function_costs(bytes@) == Some((
            c.field_models(), rest@))),
            r is Err ==> r->Err_0 == CodecError::EarlyEndOfStream,
    {
        let (mut fields, rest) = match read_host_functions(bytes, 42) {
            Ok(p) => p,
            Err(e) => {
                return Err(e);
            },
        };
        let ghost vs = fields@;
        let print = fields.pop().unwrap();
        let remove_contract_user_group_urefs = fields.pop().unwrap();
        let provision_contract_user_group_uref = fields.pop().unwrap();
        let remove_contract_user_group = fields.pop().unwrap();
        let get_named_arg = fields.pop().unwrap();
        let get_named_arg_size = fields.pop().unwrap();
        let call_versioned_contract = fields.pop().unwrap();
        let call_contract = fields.pop().unwrap();
        let disable_contract_version = fields.pop().unwrap();
        let add_contract_version = fields.pop().unwrap();
        let create_contract_user_group = fields.pop().unwrap();
        let create_contract_package_at_hash = fields.pop().unwrap();
        let read_host_buffer = fields.pop().unwrap();
        let get_main_purse = fields.pop().unwrap();
        let get_system_contract = fields.pop().unwrap();
        let get_phase = fields.pop().unwrap();
        let get_balance = fields.pop().unwrap();
        let transfer_from_purse_to_purse = fields.pop().unwrap();
        let transfer_from_purse_to_account = fields.pop().unwrap();
        let transfer_to_account = fields.pop().unwrap();
        let create_purse = fields.pop().unwrap();
        let get_blocktime = fields.pop().unwrap();
        let get_caller = fields.pop().unwrap();
        let set_action_threshold = fields.pop().unwrap();
        let update_associated_key = fields.pop().unwrap();
        let remove_associated_key = fields.pop().unwrap();
        let add_associated_key = fields.pop().unwrap();
        let is_valid_uref = fields.pop().unwrap();
        let revert = fields.pop().unwrap();
        let remove_key = fields.pop().unwrap();
        let put_key = fields.pop().unwrap();
        let has_key = fields.pop().unwrap();
        let get_key = fields.pop().unwrap();
        let ret = fields.pop().unwrap();
        let load_named_keys = fields.pop().unwrap();
        let new_uref = fields.pop().unwrap();
        let add_local = fields.pop().unwrap();
        let add = fields.pop().unwrap();
        let write_local = fields.pop().unwrap();
        let write = fields.pop().unwrap();
        let read_value_local = fields.pop().unwrap();
        let read_value = fields.pop().unwrap();
        let costs = HostFunctionCosts {
            read_value,
            read_value_local,
            write,
            write_local,
            add,
            add_local,
            new_uref,
            load_named_keys,
            ret,
            get_key,
            has_key,
            put_key,
            remove_key,
            revert,
            is_valid_uref,
            add_associated_key,
            remove_associated_key,
            update_associated_key,
            set_action_threshold,
            get_caller,
            get_blocktime,
            create_purse,
            transfer_to_account,
            transfer_from_purse_to_account,
            transfer_from_purse_to_purse,
            get_balance,
            get_phase,
            get_system_contract,
            get_main_purse,
            read_host_buffer,
            create_contract_package_at_hash,
            create_contract_user_group,
            add_contract_version,
            disable_contract_version,
            call_contract,
            call_versioned_contract,
            get_named_arg_size,
            get_named_arg,
            remove_contract_user_group,
            provision_contract_user_group_uref,
            remove_contract_user_group_urefs,
            print,
        };
        proof {
            assert(costs.read_value == vs[0]);
            assert(costs.read_value_local == vs[1]);
            assert(costs.write == vs[2]);
            assert(costs.write_local == vs[3]);
            assert(costs.add == vs[4]);
            assert(costs.add_local == vs[5]);
            assert(costs.new_uref == vs[6]);
            assert(costs.load_named_keys == vs[7]);
            assert(costs.ret == vs[8]);
            assert(costs.get_key == vs[9]);
            assert(costs.has_key == vs[10]);
            assert(costs.put_key == vs[11]);
            assert(costs.remove_key == vs[12]);
            assert(costs.revert == vs[13]);
            assert(costs.is_valid_uref == vs[14]);
            assert(costs.add_associated_key == vs[15]);
            assert(costs.remove_associated_key == vs[16]);
            assert(costs.update_associated_key == vs[17]);
            assert(costs.set_action_threshold == vs[18]);
            assert(costs.get_caller == vs[19]);
            assert(costs.get_blocktime == vs[20]);
            assert(costs.create_purse == vs[21]);
            assert(costs.transfer_to_account == vs[22]);
            assert(costs.transfer_from_purse_to_account == vs[23]);
            assert(costs.transfer_from_purse_to_purse == vs[24]);
            assert(costs.get_balance == vs[25]);
            assert(costs.get_phase == vs[26]);
            assert(costs.get_system_contract == vs[27]);
            assert(costs.get_main_purse == vs[28]);
            assert(costs.read_host_buffer == vs[29]);
            assert(costs.create_contract_package_at_hash == vs[30]);
            assert(costs.create_contract_user_group == vs[31]);
            assert(costs.add_contract_version == vs[32]);
            assert(costs.disable_contract_version == vs[33]);
            assert(costs.call_contract == vs[34]);
            assert(costs.call_versioned_contract == vs[35]);
            assert(costs.get_named_arg_size == vs[36]);
            assert(costs.get_named_arg == vs[37]);
            assert(costs.remove_contract_user_group == vs[38]);
            assert(costs.provision_contract_user_group_uref == vs[39]);
            assert(costs.remove_contract_user_group_urefs == vs[40]);
            assert(costs.print == vs[41]);
            assert(costs.field_models() =~= models_of(vs));
        }
        Ok((costs, rest))
    }
}

impl Default for HostFunctionCosts {
    /// A table in which every host function has the default cost entry.
    fn default() -> (r: Self)
        ensures
            hf_model(r.read_value) == (DEFAULT_FIXED_COST, Seq::<u32>::empty()),
            hf_model(r.read_value_local) == (DEFAULT_FIXED_COST, Seq::<u32>::empty()),
            hf_model(r.write) == (DEFAULT_FIXED_COST, Seq::<u32>::empty()),
            hf_model(r.write_local) == (DEFAULT_FIXED_COST, Seq::<u32>::empty()),
            hf_model(r.add) == (DEFAULT_FIXED_COST, Seq::<u32>::empty()),
            hf_model(r.add_local) == (DEFAULT_FIXED_COST, Seq::<u32>::empty()),
            hf_model(r.new_uref) == (DEFAULT_FIXED_COST, Seq::<u32>::empty()),
            hf_model(r.load_named_keys) == (DEFAULT_FIXED_COST, Seq::<u32>::empty()),
            hf_model(r.ret) == (DEFAULT_FIXED_COST, Seq::<u32>::empty()),
            hf_model(r.get_key) == (DEFAULT_FIXED_COST, Seq::<u32>::empty()),
            hf_model(r.has_key) == (DEFAULT_FIXED_COST, Seq::<u32>::empty()),
            hf_model(r.put_key) == (DEFAULT_FIXED_COST, Seq::<u32>::empty()),
            hf_model(r.remove_key) == (DEFAULT_FIXED_COST, Seq::<u32>::empty()),
            hf_model(r.revert) == (DEFAULT_FIXED_COST, Seq::<u32>::empty()),
            hf_model(r.is_valid_uref) == (DEFAULT_FIXED_COST, Seq::<u32>::empty()),
            hf_model(r.add_associated_key) == (DEFAULT_FIXED_COST, Seq::<u32>::empty()),
            hf_model(r.remove_associated_key) == (DEFAULT_FIXED_COST, Seq::<u32>::empty()),
            hf_model(r.update_associated_key) == (DEFAULT_FIXED_COST, Seq::<u32>::empty()),
            hf_model(r.set_action_threshold) == (DEFAULT_FIXED_COST, Seq::<u32>::empty()),
            hf_model(r.get_caller) == (DEFAULT_FIXED_COST, Seq::<u32>::empty()),
            hf_model(r.get_blocktime) == (DEFAULT_FIXED_COST, Seq::<u32>::empty()),
            hf_model(r.create_purse) == (DEFAULT_FIXED_COST, Seq::<u32>::empty()),
            hf_model(r.transfer_to_account) == (DEFAULT_FIXED_COST, Seq::<u32>::empty()),
            hf_model(r.transfer_from_purse_to_account) == (DEFAULT_FIXED_COST, Seq::<u32>::empty()),
            hf_model(r.transfer_from_purse_to_purse) == (DEFAULT_FIXED_COST, Seq::<u32>::empty()),
            hf_model(r.get_balance) == (DEFAULT_FIXED_COST, Seq::<u32>::empty()),
            hf_model(r.get_phase) == (DEFAULT_FIXED_COST, Seq::<u32>::empty()),
            hf_model(r.get_system_contract) == (DEFAULT_FIXED_COST, Seq::<u32>::empty()),
            hf_model(r.get_main_purse) == (DEFAULT_FIXED_COST, Seq::<u32>::empty()),
            hf_model(r.read_host_buffer) == (DEFAULT_FIXED_COST, Seq::<u32>::empty()),
            hf_model(r.create_contract_package_at_hash) == (DEFAULT_FIXED_COST, Seq::<u32>::empty()),
            hf_model(r.create_contract_user_group) == (DEFAULT_FIXED_COST, Seq::<u32>::empty()),
            hf_model(r.add_contract_version) == (DEFAULT_FIXED_COST, Seq::<u32>::empty()),
            hf_model(r.disable_contract_version) == (DEFAULT_FIXED_COST, Seq::<u32>::empty()),
            hf_model(r.call_contract) == (DEFAULT_FIXED_COST, Seq::<u32>::empty()),
            hf_model(r.call_versioned_contract) == (DEFAULT_FIXED_COST, Seq::<u32>::empty()),
            hf_model(r.get_named_arg_size) == (DEFAULT_FIXED_COST, Seq::<u32>::empty()),
            hf_model(r.get_named_arg) == (DEFAULT_FIXED_COST, Seq::<u32>::empty()),
            hf_model(r.remove_contract_user_group) == (DEFAULT_FIXED_COST, Seq::<u32>::empty()),
            hf_model(r.provision_contract_user_group_uref) == (DEFAULT_FIXED_COST, Seq::<u32>::empty()),
            hf_model(r.remove_contract_user_group_urefs) == (DEFAULT_FIXED_COST, Seq::<u32>::empty()),
            hf_model(r.print) == (DEFAULT_FIXED_COST, Seq::<u32>::empty()),
    {
        HostFunctionCosts {
            read_value: HostFunction::fixed(DEFAULT_FIXED_COST),
            read_value_local: HostFunction::fixed(DEFAULT_FIXED_COST),
            write: HostFunction::fixed(DEFAULT_FIXED_COST),
            write_local: HostFunction::fixed(DEFAULT_FIXED_COST),
            add: HostFunction::fixed(DEFAULT_FIXED_COST),
            add_local: HostFunction::fixed(DEFAULT_FIXED_COST),
            new_uref: HostFunction::fixed(DEFAULT_FIXED_COST),
            load_named_keys: HostFunction::fixed(DEFAULT_FIXED_COST),
            ret: HostFunction::fixed(DEFAULT_FIXED_COST),
            get_key: HostFunction::fixed(DEFAULT_FIXED_COST),
            has_key: HostFunction::fixed(DEFAULT_FIXED_COST),
            put_key: HostFunction::fixed(DEFAULT_FIXED_COST),
            remove_key: HostFunction::fixed(DEFAULT_FIXED_COST),
            revert: HostFunction::fixed(DEFAULT_FIXED_COST),
            is_valid_uref: HostFunction::fixed(DEFAULT_FIXED_COST),
            add_associated_key: HostFunction::fixed(DEFAULT_FIXED_COST),
            remove_associated_key: HostFunction::fixed(DEFAULT_FIXED_COST),
            update_associated_key: HostFunction::fixed(DEFAULT_FIXED_COST),
            set_action_threshold: HostFunction::fixed(DEFAULT_FIXED_COST),
            get_caller: HostFunction::fixed(DEFAULT_FIXED_COST),
            get_blocktime: HostFunction::fixed(DEFAULT_FIXED_COST),
            create_purse: HostFunction::fixed(DEFAULT_FIXED_COST),
            transfer_to_account: HostFunction::fixed(DEFAULT_FIXED_COST),
            transfer_from_purse_to_account: HostFunction::fixed(DEFAULT_FIXED_COST),
            transfer_from_purse_to_purse: HostFunction::fixed(DEFAULT_FIXED_COST),
            get_balance: HostFunction::fixed(DEFAULT_FIXED_COST),
            get_phase: HostFunction::fixed(DEFAULT_FIXED_COST),
            get_system_contract: HostFunction::fixed(DEFAULT_FIXED_COST),
            get_main_purse: HostFunction::fixed(DEFAULT_FIXED_COST),
            read_host_buffer: HostFunction::fixed(DEFAULT_FIXED_COST),
            create_contract_package_at_hash: HostFunction::fixed(DEFAULT_FIXED_COST),
            create_contract_user_group: HostFunction::fixed(DEFAULT_FIXED_COST),
            add_contract_version: HostFunction::fixed(DEFAULT_FIXED_COST),
            disable_contract_version: HostFunction::fixed(DEFAULT_FIXED_COST),
            call_contract: HostFunction::fixed(DEFAULT_FIXED_COST),
            call_versioned_contract: HostFunction::fixed(DEFAULT_FIXED_COST),
            get_named_arg_size: HostFunction::fixed(DEFAULT_FIXED_COST),
            get_named_arg: HostFunction::fixed(DEFAULT_FIXED_COST),
            remove_contract_user_group: HostFunction::fixed(DEFAULT_FIXED_COST),
            provision_contract_user_group_uref: HostFunction::fixed(DEFAULT_FIXED_COST),
            remove_contract_user_group_urefs: HostFunction::fixed(DEFAULT_FIXED_COST),
            print: HostFunction::fixed(DEFAULT_FIXED_COST),
        }
    }
}

/// Reads a whole cost table from the front of `s`.
pub open spec fn parse_host_function_costs(s: Seq<u8>) -> Option<
    (Seq<(u32, Seq<u32>)>, Seq<u8>),
> {
    parse_host_function_seq(s, 42)
}

/// Parsing bytes that begin with a table's encoding yields that table's
/// entries and the remaining bytes: the wire format round-trips.
pub proof fn lemma_host_function_costs_roundtrip(c: HostFunctionCosts, rest: Seq<u8>)
    requires
        c.wf(),
    ensures
        parse_host_function_costs(c.wire_bytes() + rest) == Some((c.field_models(), rest)),
{
    c.lemma_models_wf();
    lemma_parse_host_function_seq_of_encoding(c.field_models(), rest);
}

} // verus!
