//! The sandbox test context: the worker, the root account (owner), and the
//! contracts and fungible tokens deployed in it, each kept by name.
//!
//! A [SandboxContextBuilder] collects what to deploy; deploying it yields the
//! contracts that are registered in a [SandboxContext], where a name
//! registered again keeps the contract deployed last under it.
use vstd::prelude::*;

use near_workspaces::network::Sandbox;
use near_workspaces::types::NearToken;
use near_workspaces::{Account, Contract, Worker};

use crate::decimal::{decimal_digits, decimal_string};
use crate::registry::{entries_map, entries_view, lookup, register, unique_names};
use crate::text::{to_uppercase, uppercase_text};
use crate::types::{FungibleTokenMetadata, TokenDecimals};
use crate::u128_impl::{pow10, U128Extensions};

verus! {

/// The whole-unit total supply that each token deployed by a builder starts
/// with.
pub const TOKEN_TOTAL_SUPPLY: u128 = 10_000_000;

/// One contract to deploy: account prefix, initial balance, WASM.
#[derive(Clone)]
pub struct ContractSpec {
    pub prefix: String,
    pub balance: NearToken,
    pub wasm: Vec<u8>,
}

impl ContractSpec {
    /// A spec with the given prefix, balance and code.
    pub fn new(prefix: &str, balance: NearToken, wasm: &[u8]) -> (r: Self)
        ensures
            r.prefix@ == prefix@,
            r.balance == balance,
            r.wasm@ == wasm@,
    {
        ContractSpec { prefix: String::from_str(prefix), balance, wasm: vstd::slice::slice_to_vec(wasm) }
    }
}

/// A deployed fungible token: its contract and the decimals that amounts of
/// it carry.
#[derive(Clone)]
pub struct TokenInfo {
    pub contract: Contract,
    pub decimals: TokenDecimals,
}

impl TokenInfo {
    /// The token's contract.
    pub fn contract(&self) -> (r: &Contract)
        ensures
            *r == self.contract,
    {
        &self.contract
    }

    /// The token's decimals.
    pub fn decimals(&self) -> (r: TokenDecimals)
        ensures
            r == self.decimals,
    {
        self.decimals
    }
}

/// One fungible token (NEP-148) to deploy.
#[derive(Clone)]
pub struct TokenSpec {
    pub name: String,
    pub decimals: TokenDecimals,
    pub wasm: Vec<u8>,
}

impl TokenSpec {
    /// The total supply that the token is initialised with, in smallest
    /// units and written in decimal: `10_000_000 * 10^decimals`, which must
    /// fit in a `u128`.
    pub fn total_supply(&self) -> (r: String)
        requires
            TOKEN_TOTAL_SUPPLY * pow10(self.decimals as nat) <= u128::MAX,
        ensures
            r@ == decimal_digits(TOKEN_TOTAL_SUPPLY as nat * pow10(self.decimals as nat)),
    {
        assert(pow10(self.decimals as nat) <= TOKEN_TOTAL_SUPPLY * pow10(self.decimals as nat));
        let amount = TOKEN_TOTAL_SUPPLY.to_decimals(self.decimals);
        decimal_string(amount)
    }

    /// The metadata that the token is initialised with, given the symbol:
    /// spec `ft-1.0.0`, name `Token <name>`, the token's decimals, and no
    /// icon, reference or reference hash.
    pub fn metadata_with_symbol(&self, symbol: String) -> (r: FungibleTokenMetadata)
        ensures
            r.spec@ == "ft-1.0.0"@,
            r.name@ == "Token "@ + self.name@,
            r.symbol@ == symbol@,
            r.decimals == self.decimals,
            r.icon is None,
            r.reference is None,
            r.reference_hash is None,
    {
        let mut name = String::from_str("Token ");
        name.append(self.name.as_str());
        FungibleTokenMetadata {
            spec: String::from_str("ft-1.0.0"),
            name,
            symbol,
            decimals: self.decimals,
            icon: None,
            reference: None,
            reference_hash: None,
        }
    }

    /// The metadata that the token is initialised with: as
    /// [TokenSpec::metadata_with_symbol], with the token's name in uppercase
    /// as its symbol.
    pub fn metadata(&self) -> (r: FungibleTokenMetadata)
        ensures
            r.spec@ == "ft-1.0.0"@,
            r.name@ == "Token "@ + self.name@,
            r.symbol@ == uppercase_text(self.name@),
            r.decimals == self.decimals,
            r.icon is None,
            r.reference is None,
            r.reference_hash is None,
    {
        let symbol = to_uppercase(self.name.as_str());
        self.metadata_with_symbol(symbol)
    }
}

/// Sandbox test environment: worker, root account (owner), and the
/// contracts and tokens deployed in it, by name.
pub struct SandboxContext {
    worker: Worker<Sandbox>,
    owner: Account,
    contracts: Vec<(String, Contract)>,
    tokens: Vec<(String, TokenInfo)>,
}

impl SandboxContext {
    #[verifier::type_invariant]
    spec fn names_unique(self) -> bool {
        &&& unique_names(entries_view(self.contracts@))
        &&& unique_names(entries_view(self.tokens@))
    }

    /// The contracts registered, by name.
    pub closed spec fn contracts_map(&self) -> Map<Seq<char>, Contract> {
        entries_map(entries_view(self.contracts@))
    }

    /// The tokens registered, by name.
    pub closed spec fn tokens_map(&self) -> Map<Seq<char>, TokenInfo> {
        entries_map(entries_view(self.tokens@))
    }

    /// The context's worker.
    pub closed spec fn sandbox_worker(&self) -> Worker<Sandbox> {
        self.worker
    }

    /// The context's root account.
    pub closed spec fn owner_account(&self) -> Account {
        self.owner
    }

    /// A context over `worker` with root account `owner`, holding no
    /// contract and no token yet.
    pub fn from_parts(worker: Worker<Sandbox>, owner: Account) -> (r: Self)
        ensures
            r.sandbox_worker() == worker,
            r.owner_account() == owner,
            r.contracts_map() == Map::<Seq<char>, Contract>::empty(),
            r.tokens_map() == Map::<Seq<char>, TokenInfo>::empty(),
    {
        let r = SandboxContext { worker, owner, contracts: Vec::new(), tokens: Vec::new() };
        assert(entries_view(r.contracts@) =~= Seq::<(Seq<char>, Contract)>::empty());
        assert(entries_view(r.tokens@) =~= Seq::<(Seq<char>, TokenInfo)>::empty());
        r
    }

    /// A context over `worker` with root account `owner` that holds the
    /// deployed `contracts` and `tokens`, each registered by name in order:
    /// under a name used more than once, the last one deployed is kept.
    pub fn from_deployed(
        worker: Worker<Sandbox>,
        owner: Account,
        contracts: Vec<(String, Contract)>,
        tokens: Vec<(String, TokenInfo)>,
    ) -> (r: Self)
        ensures
            r.sandbox_worker() == worker,
            r.owner_account() == owner,
            r.contracts_map() == entries_map(entries_view(contracts@)),
            r.tokens_map() == entries_map(entries_view(tokens@)),
    {
        let mut ctx = SandboxContext::from_parts(worker, owner);
        let ghost hc = entries_view(contracts@);
        let ghost ht = entries_view(tokens@);
        let mut cs = contracts;
        let mut ts = tokens;
        let ghost cs0 = cs@;
        let ghost ts0 = ts@;
        assert(cs@ =~= cs0.skip(0));
        assert(ts@ =~= ts0.skip(0));
        assert(hc.take(0) =~= Seq::<(Seq<char>, Contract)>::empty());
        let mut i: usize = 0;
        let n = cs.len();
        while i < n
            invariant
                n == cs0.len(),
                i <= n,
                hc == entries_view(cs0),
                cs@ =~= cs0.skip(i as int),
                ctx.contracts_map() == entries_map(hc.take(i as int)),
                ctx.tokens_map() == Map::<Seq<char>, TokenInfo>::empty(),
                ctx.sandbox_worker() == worker,
                ctx.owner_account() == owner,
            decreases n - i,
        {
            let (name, contract) = cs.remove(0);
            proof {
                assert(hc.take(i + 1).drop_last() =~= hc.take(i as int));
                assert(cs@ =~= cs0.skip(i + 1));
            }
            ctx.register_contract(name, contract);
            i = i + 1;
        }
        assert(hc.take(n as int) =~= hc);
        assert(ht.take(0) =~= Seq::<(Seq<char>, TokenInfo)>::empty());
        let mut j: usize = 0;
        let m = ts.len();
        while j < m
            invariant
                m == ts0.len(),
                j <= m,
                ht == entries_view(ts0),
                ts@ =~= ts0.skip(j as int),
                ctx.tokens_map() == entries_map(ht.take(j as int)),
                ctx.contracts_map() == entries_map(hc),
                ctx.sandbox_worker() == worker,
                ctx.owner_account() == owner,
            decreases m - j,
        {
            let (name, info) = ts.remove(0);
            proof {
                assert(ht.take(j + 1).drop_last() =~= ht.take(j as int));
                assert(ts@ =~= ts0.skip(j + 1));
            }
            ctx.register_token(name, info);
            j = j + 1;
        }
        assert(ht.take(m as int) =~= ht);
        ctx
    }

    /// Start building a sandbox context: no contract and no token to deploy.
    pub fn builder() -> (r: SandboxContextBuilder)
        ensures
            r.contract_specs() == Seq::<ContractSpec>::empty(),
            r.token_specs() == Seq::<TokenSpec>::empty(),
    {
        SandboxContextBuilder { specs: Vec::new(), token_specs: Vec::new() }
    }

    /// Worker for the sandbox.
    pub fn worker(&self) -> (r: &Worker<Sandbox>)
        ensures
            *r == self.sandbox_worker(),
    {
        &self.worker
    }

    /// Root account (owner) for the sandbox.
    pub fn owner(&self) -> (r: &Account)
        ensures
            *r == self.owner_account(),
    {
        &self.owner
    }

    /// Registers `contract` under `name`, replacing any contract registered
    /// under that name.
    pub fn register_contract(&mut self, name: String, contract: Contract)
        ensures
            final(self).contracts_map() == old(self).contracts_map().insert(name@, contract),
            final(self).tokens_map() == old(self).tokens_map(),
            final(self).sandbox_worker() == old(self).sandbox_worker(),
            final(self).owner_account() == old(self).owner_account(),
    {
        proof {
            use_type_invariant(&*self);
        }
        let mut entries: Vec<(String, Contract)> = Vec::new();
        std::mem::swap(&mut entries, &mut self.contracts);
        register(&mut entries, name, contract);
        std::mem::swap(&mut entries, &mut self.contracts);
    }

    /// Registers `info` under `name`, replacing any token registered under
    /// that name.
    pub fn register_token(&mut self, name: String, info: TokenInfo)
        ensures
            final(self).tokens_map() == old(self).tokens_map().insert(name@, info),
            final(self).contracts_map() == old(self).contracts_map(),
            final(self).sandbox_worker() == old(self).sandbox_worker(),
            final(self).owner_account() == old(self).owner_account(),
    {
        proof {
            use_type_invariant(&*self);
        }
        let mut entries: Vec<(String, TokenInfo)> = Vec::new();
        std::mem::swap(&mut entries, &mut self.tokens);
        register(&mut entries, name, info);
        std::mem::swap(&mut entries, &mut self.tokens);
    }

    /// The contract registered under `name`, if any.
    pub fn contract(&self, name: &str) -> (r: Option<&Contract>)
        ensures
            r is Some <==> self.contracts_map().dom().contains(name@),
            r matches Some(c) ==> *c == self.contracts_map()[name@],
    {
        proof {
            use_type_invariant(self);
        }
        lookup(&self.contracts, name)
    }

    /// The contract registered under `name`, which must be registered.
    pub fn contract_expect(&self, name: &str) -> (r: &Contract)
        requires
            self.contracts_map().dom().contains(name@),
        ensures
            *r == self.contracts_map()[name@],
    {
        self.contract(name).unwrap()
    }

    /// Number of registered contracts.
    pub fn contract_count(&self) -> (r: usize)
        ensures
            r == self.contracts_map().dom().len(),
    {
        proof {
            use_type_invariant(self);
            crate::registry::lemma_entries_len(entries_view(self.contracts@));
        }
        self.contracts.len()
    }

    /// The registered contracts with their names, each name once.
    pub fn contracts(&self) -> (r: Vec<(&str, &Contract)>)
        ensures
            r.len() == self.contracts_map().dom().len(),
            forall|i: int|
                0 <= i < r.len() ==> self.contracts_map().dom().contains(#[trigger] r@[i].0@)
                    && *r@[i].1 == self.contracts_map()[r@[i].0@],
            forall|name: Seq<char>|
                #[trigger] self.contracts_map().dom().contains(name) ==> exists|i: int|
                    0 <= i < r.len() && #[trigger] r@[i].0@ == name,
    {
        proof {
            use_type_invariant(self);
        }
        let ghost h = entries_view(self.contracts@);
        let mut r: Vec<(&str, &Contract)> = Vec::new();
        let mut i: usize = 0;
        while i < self.contracts.len()
            invariant
                h == entries_view(self.contracts@),
                unique_names(h),
                i <= self.contracts.len(),
                r.len() == i,
                forall|k: int| 0 <= k < i ==> #[trigger] r@[k].0@ == h[k].0 && *r@[k].1 == h[k].1,
            decreases self.contracts.len() - i,
        {
            r.push((self.contracts[i].0.as_str(), &self.contracts[i].1));
            i = i + 1;
        }
        proof {
            crate::registry::lemma_entries_len(h);
            assert forall|k: int| 0 <= k < r.len() implies self.contracts_map().dom().contains(
                #[trigger] r@[k].0@,
            ) && *r@[k].1 == self.contracts_map()[r@[k].0@] by {
                crate::registry::lemma_unique_lookup(h, k);
            }
            assert forall|name: Seq<char>| #[trigger]
                self.contracts_map().dom().contains(name) implies exists|k: int|
                0 <= k < r.len() && #[trigger] r@[k].0@ == name by {
                crate::registry::lemma_entries_dom(h, name);
                let k = choose|k: int| 0 <= k < h.len() && #[trigger] h[k].0 == name;
                assert(r@[k].0@ == name);
            }
        }
        r
    }

    /// The token registered under `name`, if any.
    pub fn token(&self, name: &str) -> (r: Option<&TokenInfo>)
        ensures
            r is Some <==> self.tokens_map().dom().contains(name@),
            r matches Some(t) ==> *t == self.tokens_map()[name@],
    {
        proof {
            use_type_invariant(self);
        }
        lookup(&self.tokens, name)
    }

    /// The token registered under `name`, which must be registered.
    pub fn token_expect(&self, name: &str) -> (r: &TokenInfo)
        requires
            self.tokens_map().dom().contains(name@),
        ensures
            *r == self.tokens_map()[name@],
    {
        self.token(name).unwrap()
    }

    /// Number of registered tokens.
    pub fn token_count(&self) -> (r: usize)
        ensures
            r == self.tokens_map().dom().len(),
    {
        proof {
            use_type_invariant(self);
            crate::registry::lemma_entries_len(entries_view(self.tokens@));
        }
        self.tokens.len()
    }
}

/// Builder for [SandboxContext]: the contracts and tokens to deploy, in the
/// order they were added.
pub struct SandboxContextBuilder {
    specs: Vec<ContractSpec>,
    token_specs: Vec<TokenSpec>,
}

impl SandboxContextBuilder {
    /// The contracts to deploy, in order.
    pub closed spec fn contract_specs(&self) -> Seq<ContractSpec> {
        self.specs@
    }

    /// The tokens to deploy, in order.
    pub closed spec fn token_specs(&self) -> Seq<TokenSpec> {
        self.token_specs@
    }

    /// Adds one contract to deploy, from its prefix, balance and code.
    pub fn add_contract(self, name: &str, balance: NearToken, wasm: &[u8]) -> (r: Self)
        ensures
            r.contract_specs().len() == self.contract_specs().len() + 1,
            r.contract_specs().drop_last() == self.contract_specs(),
            r.contract_specs().last().prefix@ == name@,
            r.contract_specs().last().balance == balance,
            r.contract_specs().last().wasm@ == wasm@,
            r.token_specs() == self.token_specs(),
    {
        self.add_spec(ContractSpec::new(name, balance, wasm))
    }

    /// Adds a contract to deploy from a [ContractSpec].
    pub fn add_spec(self, spec: ContractSpec) -> (r: Self)
        ensures
            r.contract_specs() == self.contract_specs().push(spec),
            r.token_specs() == self.token_specs(),
    {
        let mut b = self;
        b.specs.push(spec);
        b
    }

    /// Adds a fungible token (NEP-148) to deploy with the given code.
    pub fn add_token_with_wasm(self, name: &str, decimals: TokenDecimals, wasm: &[u8]) -> (r:
        Self)
        ensures
            r.token_specs().len() == self.token_specs().len() + 1,
            r.token_specs().drop_last() == self.token_specs(),
            r.token_specs().last().name@ == name@,
            r.token_specs().last().decimals == decimals,
            r.token_specs().last().wasm@ == wasm@,
            r.contract_specs() == self.contract_specs(),
    {
        let mut b = self;
        b.token_specs.push(
            TokenSpec {
                name: String::from_str(name),
                decimals,
                wasm: vstd::slice::slice_to_vec(wasm),
            },
        );
        proof {
            assert(b.token_specs@.drop_last() =~= self.token_specs@);
        }
        b
    }

    /// The contracts and the tokens to deploy, in the order they were added.
    pub fn into_specs(self) -> (r: (Vec<ContractSpec>, Vec<TokenSpec>))
        ensures
            r.0@ == self.contract_specs(),
            r.1@ == self.token_specs(),
    {
        (self.specs, self.token_specs)
    }
}

} // verus!
