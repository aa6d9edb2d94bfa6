//! The factory that deploys a trove manager, with its sorted troves, for
//! each new collateral.
use crate::arch::{state_transition_request, ProgramError, TransactionToSign};
use crate::btc::{consensus_encoding, tx_view, Transaction};
use crate::codec::string_from_utf8;
use vstd::utf8::encode_utf8;
use crate::types::{Pubkey, Table, TableKey};
use vstd::prelude::*;

verus! {

/// The decimal digits of `n`.
pub open spec fn decimal_digits(n: nat) -> Seq<char>
    decreases n,
{
    if n < 10 {
        seq![(48 + n) as char]
    } else {
        decimal_digits(n / 10).push((48 + n % 10) as char)
    }
}

/// The name under which the `n`-th deployed trove manager is registered.
pub open spec fn instance_name(n: nat) -> Seq<char> {
    "tm_"@ + decimal_digits(n)
}

/// The bytes of an ASCII text: each character's code.
pub open spec fn ascii_bytes(s: Seq<char>) -> Seq<u8> {
    s.map_values(|c: char| (c as u32) as u8)
}

/// The UTF-8 encoding of a text of ASCII characters is their codes.
proof fn lemma_encode_ascii(s: Seq<char>)
    requires
        forall|i: int| 0 <= i < s.len() ==> (#[trigger] s[i] as u32) < 128,
    ensures
        encode_utf8(s) == ascii_bytes(s),
    decreases s.len(),
{
    if s.len() > 0 {
        let rest = s.drop_first();
        assert forall|i: int| 0 <= i < rest.len() implies (#[trigger] rest[i] as u32) < 128 by {
            assert(rest[i] == s[i + 1]);
        }
        lemma_encode_ascii(rest);
        let v = s[0] as u32;
        assert(v < 128 ==> (v & 0x7F) as u8 == v as u8) by (bit_vector);
        assert(encode_utf8(s) =~= ascii_bytes(s));
    }
}

/// Every decimal digit is an ASCII digit.
proof fn lemma_decimal_digits_ascii(n: nat)
    ensures
        forall|i: int| 0 <= i < decimal_digits(n).len() ==> 48 <= (#[trigger] decimal_digits(n)[i] as u32) < 58,
        decimal_digits(n).len() >= 1,
    decreases n,
{
    if n >= 10 {
        lemma_decimal_digits_ascii(n / 10);
    }
}

/// Appends the decimal digits of `n`, as ASCII bytes.
fn push_decimal(out: &mut Vec<u8>, n: u64)
    ensures
        final(out)@ == old(out)@ + ascii_bytes(decimal_digits(n as nat)),
    decreases n,
{
    if n < 10 {
        let d = n as u8;
        out.push(48 + d);
        assert(ascii_bytes(decimal_digits(n as nat)) =~= seq![(48 + d) as u8]);
    } else {
        push_decimal(out, n / 10);
        let d = (n % 10) as u8;
        out.push(48 + d);
        let ghost front = decimal_digits((n / 10) as nat);
        assert(decimal_digits(n as nat) == front.push((48 + n % 10) as char));
        assert(ascii_bytes(front.push((48 + n % 10) as char)) =~= ascii_bytes(front).push((48 + d) as u8));
    }
}

/// The registry name `tm_<n>`: the prefix and the decimal digits of `n`.
fn format_instance_name(n: u64) -> (r: String)
    ensures
        r@ == instance_name(n as nat),
{
    let ghost name = instance_name(n as nat);
    proof {
        reveal_strlit("tm_");
        lemma_decimal_digits_ascii(n as nat);
        assert forall|i: int| 0 <= i < name.len() implies (#[trigger] name[i] as u32) < 128 by {
            if i >= 3 {
                assert(name[i] == decimal_digits(n as nat)[i - 3]);
            }
        }
        lemma_encode_ascii(name);
        vstd::utf8::encode_utf8_valid_utf8(name);
        vstd::utf8::encode_utf8_decode_utf8(name);
    }
    let mut bytes: Vec<u8> = Vec::new();
    bytes.push(116);
    bytes.push(109);
    bytes.push(95);
    push_decimal(&mut bytes, n);
    assert(bytes@ =~= ascii_bytes(name));
    assert(bytes@ == encode_utf8(name));
    match string_from_utf8(bytes) {
        Some(s) => s,
        None => {
            proof {
                assert(false);
            }
            String::new()
        },
    }
}

/// Parameters of a deployment.
#[derive(Clone, Copy, Debug)]
pub struct DeploymentParams {}

/// The sorted troves of a deployed instance.
#[derive(Clone, Copy, Debug)]
pub struct SortedTroves {}

impl SortedTroves {
    pub fn new() -> (r: Self)
        ensures
            r == (SortedTroves {}),
    {
        SortedTroves {}
    }

    /// Links the list back to its trove manager; nothing is stored.
    pub fn set_addresses(&mut self, trove_manager: &TroveManager)
        ensures
            *final(self) == *old(self),
    {
    }
}

/// A deployed trove manager: its address, price feed, sorted troves,
/// collateral and parameters.
pub struct TroveManager {
    address: String,
    price_feed: String,
    sorted_troves: SortedTroves,
    collateral: String,
    params: DeploymentParams,
}

impl TroveManager {
    pub closed spec fn spec_address(&self) -> Seq<char> {
        self.address@
    }

    pub closed spec fn spec_price_feed(&self) -> Seq<char> {
        self.price_feed@
    }

    pub closed spec fn spec_collateral(&self) -> Seq<char> {
        self.collateral@
    }

    /// The deployment parameters it holds.
    pub closed spec fn spec_params(&self) -> DeploymentParams {
        self.params
    }

    /// A trove manager at `address`, with no price feed or collateral yet.
    pub fn new(address: String) -> (r: Self)
        ensures
            r.spec_address() == address@,
            r.spec_price_feed() == Seq::<char>::empty(),
            r.spec_collateral() == Seq::<char>::empty(),
    {
        TroveManager {
            address,
            price_feed: String::new(),
            sorted_troves: SortedTroves::new(),
            collateral: String::new(),
            params: DeploymentParams {},
        }
    }

    /// Sets the price feed, the sorted troves and the collateral.
    pub fn set_addresses(&mut self, price_feed: &str, sorted_troves: &SortedTroves, collateral: &str)
        ensures
            final(self).spec_address() == old(self).spec_address(),
            final(self).spec_price_feed() == price_feed@,
            final(self).spec_collateral() == collateral@,
    {
        self.price_feed = price_feed.to_string();
        self.sorted_troves = *sorted_troves;
        self.collateral = collateral.to_string();
    }

    /// Asks the oracle for a price; the deployment only checks that it answers.
    pub fn fetch_price(&self) {
    }

    /// Sets the deployment parameters.
    pub fn set_parameters(&mut self, params: DeploymentParams)
        ensures
            final(self).spec_params() == params,
            final(self).spec_address() == old(self).spec_address(),
            final(self).spec_price_feed() == old(self).spec_price_feed(),
            final(self).spec_collateral() == old(self).spec_collateral(),
    {
        self.params = params;
    }
}

/// The factory: its owner, the template trove manager and the deployed
/// trove managers by name.
pub struct Factory {
    owner: Pubkey,
    trove_manager_impl_address: String,
    trove_managers: Table<String, TroveManager>,
}

impl Factory {
    pub closed spec fn well_formed(&self) -> bool {
        &&& self.trove_managers.well_formed()
        &&& self.trove_manager_impl_address@ == "default_address"@
    }

    pub closed spec fn spec_owner(&self) -> Seq<u8> {
        self.owner@
    }

    /// The deployed trove managers by name.
    pub closed spec fn deployed(&self) -> Map<Seq<char>, TroveManager> {
        self.trove_managers.view()
    }

    /// A factory owned by `owner`, whose template lives at "default_address".
    pub fn new(owner: Pubkey) -> (r: Self)
        ensures
            r.well_formed(),
            r.spec_owner() == owner@,
            r.deployed() == Map::<Seq<char>, TroveManager>::empty(),
    {
        Factory {
            owner,
            trove_manager_impl_address: "default_address".to_string(),
            trove_managers: Table::new(),
        }
    }

    /// The number of deployed trove managers.
    pub fn instance_count(&self) -> (r: usize)
        requires
            self.well_formed(),
        ensures
            r == self.deployed().dom().len(),
    {
        self.trove_managers.len()
    }

    /// The owner deploys a trove manager for `collateral` priced by
    /// `price_feed`, registered as `tm_<n>` where `n - 1` managers were
    /// deployed before; any other caller is refused with `Unauthorized`.
    /// Once registered, the deployment is refused with the runtime's error
    /// when `ownership`, its verdict on the accounts' ownership, is one (the
    /// manager stays registered); otherwise it gives the request to sign an
    /// empty version-1 transaction by `signer`.
    pub fn deploy_new_instance(
        &mut self,
        caller: &Pubkey,
        collateral: String,
        price_feed: String,
        params: DeploymentParams,
        ownership: Result<(), ProgramError>,
        signer: Pubkey,
    ) -> (r: Result<TransactionToSign, ProgramError>)
        requires
            old(self).well_formed(),
            old(self).deployed().dom().len() < u64::MAX,
        ensures
            final(self).well_formed(),
            final(self).spec_owner() == old(self).spec_owner(),
            caller@ != old(self).spec_owner() ==> r == Err::<TransactionToSign, ProgramError>(ProgramError::Unauthorized)
                && final(self).deployed() == old(self).deployed(),
            caller@ == old(self).spec_owner() ==> {
                let name = instance_name((old(self).deployed().dom().len() + 1) as nat);
                &&& final(self).deployed().dom() == old(self).deployed().dom().insert(name)
                &&& forall|k: Seq<char>| k != name && old(self).deployed().contains_key(k) ==> final(self).deployed()[k] == old(self).deployed()[k]
                &&& final(self).deployed()[name].spec_price_feed() == price_feed@
                &&& final(self).deployed()[name].spec_collateral() == collateral@
                &&& final(self).deployed()[name].spec_address() == "default_address"@
                &&& match ownership {
                    Err(e) => r == Err::<TransactionToSign, ProgramError>(e),
                    Ok(()) => r matches Ok(t) && {
                        &&& t.tx_bytes@ == consensus_encoding((1i32, 0u32, Seq::empty(), Seq::empty()))
                        &&& t.inputs_to_sign@.len() == 1
                        &&& t.inputs_to_sign@[0].index == 0
                        &&& t.inputs_to_sign@[0].signer@ == signer@
                    },
                }
            },
    {
        if !self.owner.same(caller) {
            return Err(ProgramError::Unauthorized);
        }

        let mut trove_manager = TroveManager::new(self.trove_manager_impl_address.clone());
        let mut sorted_troves = SortedTroves::new();

        trove_manager.set_addresses(price_feed.as_str(), &sorted_troves, collateral.as_str());
        sorted_troves.set_addresses(&trove_manager);
        trove_manager.fetch_price();
        trove_manager.set_parameters(params);

        let n = self.trove_managers.len();
        let id = format_instance_name(n as u64 + 1);
        self.trove_managers.insert(id, trove_manager);
        assert(self.deployed().dom() =~= old(self).deployed().dom().insert(instance_name((n + 1) as nat)));
        match ownership {
            Err(e) => {
                return Err(e);
            },
            Ok(()) => {},
        }
        let tx = Transaction { version: 1, lock_time: 0, input: Vec::new(), output: Vec::new() };
        assert(tx_view(tx).2 =~= Seq::<(Seq<u8>, u32, Seq<u8>, u32)>::empty());
        assert(tx_view(tx).3 =~= Seq::<(u64, Seq<u8>)>::empty());
        Ok(state_transition_request(&tx, signer))
    }

    /// Whether a trove manager is registered under `name`.
    pub fn is_deployed(&self, name: &String) -> (r: bool)
        requires
            self.well_formed(),
        ensures
            r == self.deployed().contains_key(name@),
    {
        self.trove_managers.contains_key(name)
    }
}

} // verus!
