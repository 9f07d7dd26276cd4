//! The RPC APIs that a server can offer, and the sets of them that a
//! configuration can name.

use vstd::prelude::*;
use vstd::string::{StrSliceExecFns, StringExecFns};

use crate::text::{first_comma, lemma_first_comma, same_text};

verus! {

/// One RPC API.
#[derive(Debug, PartialEq, Clone, Copy, Eq, Hash, Structural)]
pub enum Api {
    /// Web3 (Safe)
    Web3,
    /// Net (Safe)
    Net,
    /// Eth (Safe)
    Eth,
    /// Eth Pub-Sub (Safe)
    EthPubSub,
    /// Oasis (Safe)
    Oasis,
}

/// The API that goes by a name, if one does.
pub open spec fn api_named(name: Seq<char>) -> Option<Api> {
    if name == "web3"@ {
        Some(Api::Web3)
    } else if name == "net"@ {
        Some(Api::Net)
    } else if name == "eth"@ {
        Some(Api::Eth)
    } else if name == "pubsub"@ {
        Some(Api::EthPubSub)
    } else if name == "oasis"@ {
        Some(Api::Oasis)
    } else {
        None
    }
}

/// What is said of a name that no API goes by.
pub open spec fn unknown_api(name: Seq<char>) -> Seq<char> {
    "Unknown api: "@ + name
}

impl Api {
    /// The API that goes by the name `s`, or what is said of a name that
    /// none goes by.
    pub fn parse(s: &str) -> (r: Result<Api, String>)
        ensures
            match api_named(s@) {
                Some(api) => r == Ok::<Api, String>(api),
                None => r is Err && r.unwrap_err()@ == unknown_api(s@),
            },
    {
        if same_text(s, "web3") {
            Ok(Api::Web3)
        } else if same_text(s, "net") {
            Ok(Api::Net)
        } else if same_text(s, "eth") {
            Ok(Api::Eth)
        } else if same_text(s, "pubsub") {
            Ok(Api::EthPubSub)
        } else if same_text(s, "oasis") {
            Ok(Api::Oasis)
        } else {
            Err(String::from_str("Unknown api: ").concat(s))
        }
    }
}

impl std::str::FromStr for Api {
    type Err = String;

    fn from_str(s: &str) -> (r: Result<Self, Self::Err>)
        ensures
            match api_named(s@) {
                Some(api) => r == Ok::<Api, String>(api),
                None => r is Err && r.unwrap_err()@ == unknown_api(s@),
            },
    {
        Api::parse(s)
    }
}

/// A set of APIs.
#[derive(Debug, PartialEq, Clone, Copy, Eq, Hash, Structural)]
pub struct Apis {
    pub web3: bool,
    pub net: bool,
    pub eth: bool,
    pub pubsub: bool,
    pub oasis: bool,
}

impl View for Apis {
    type V = Set<Api>;

    open spec fn view(&self) -> Set<Api> {
        Set::new(|api: Api| self.has(api))
    }
}

impl Apis {
    /// Whether the set holds `api`.
    pub open spec fn has(self, api: Api) -> bool {
        match api {
            Api::Web3 => self.web3,
            Api::Net => self.net,
            Api::Eth => self.eth,
            Api::EthPubSub => self.pubsub,
            Api::Oasis => self.oasis,
        }
    }

    /// The set without any API.
    pub open spec fn none() -> Apis {
        Apis { web3: false, net: false, eth: false, pubsub: false, oasis: false }
    }

    /// The set of all APIs.
    pub open spec fn every() -> Apis {
        Apis { web3: true, net: true, eth: true, pubsub: true, oasis: true }
    }

    /// The set with `api` put in.
    pub open spec fn with(self, api: Api) -> Apis {
        match api {
            Api::Web3 => Apis { web3: true, ..self },
            Api::Net => Apis { net: true, ..self },
            Api::Eth => Apis { eth: true, ..self },
            Api::EthPubSub => Apis { pubsub: true, ..self },
            Api::Oasis => Apis { oasis: true, ..self },
        }
    }

    /// The set with `api` taken out.
    pub open spec fn without(self, api: Api) -> Apis {
        match api {
            Api::Web3 => Apis { web3: false, ..self },
            Api::Net => Apis { net: false, ..self },
            Api::Eth => Apis { eth: false, ..self },
            Api::EthPubSub => Apis { pubsub: false, ..self },
            Api::Oasis => Apis { oasis: false, ..self },
        }
    }

    /// The set of what either set holds.
    pub open spec fn joined(self, other: Apis) -> Apis {
        Apis {
            web3: self.web3 || other.web3,
            net: self.net || other.net,
            eth: self.eth || other.eth,
            pubsub: self.pubsub || other.pubsub,
            oasis: self.oasis || other.oasis,
        }
    }

    /// The APIs of the set, in the order in which `Api` lists them.
    pub open spec fn listed(self) -> Seq<Api> {
        (if self.web3 {
            seq![Api::Web3]
        } else {
            Seq::empty()
        }) + (if self.net {
            seq![Api::Net]
        } else {
            Seq::empty()
        }) + (if self.eth {
            seq![Api::Eth]
        } else {
            Seq::empty()
        }) + (if self.pubsub {
            seq![Api::EthPubSub]
        } else {
            Seq::empty()
        }) + (if self.oasis {
            seq![Api::Oasis]
        } else {
            Seq::empty()
        })
    }

    /// The set that holds the items of `items`.
    pub open spec fn of(items: Seq<Api>) -> Apis
        decreases items.len(),
    {
        if items.len() == 0 {
            Apis::none()
        } else {
            Apis::of(items.drop_last()).with(items.last())
        }
    }

    /// What the operations on sets of APIs mean for the APIs they hold, and
    /// that two sets with the same APIs are the same set.
    pub proof fn lemma_model(self, other: Apis, api: Api)
        ensures
            self@.contains(api) == self.has(api),
            Apis::none()@ == Set::<Api>::empty(),
            Apis::every()@ == Set::<Api>::full(),
            self.with(api)@ == self@.insert(api),
            self.without(api)@ == self@.remove(api),
            self.joined(other)@ == self@.union(other@),
            self@ == other@ ==> self == other,
    {
        assert(Apis::none()@ =~= Set::<Api>::empty());
        assert(Apis::every()@ =~= Set::<Api>::full());
        assert(self.with(api)@ =~= self@.insert(api));
        assert(self.without(api)@ =~= self@.remove(api));
        assert(self.joined(other)@ =~= self@.union(other@));
        if self@ == other@ {
            assert(self@.contains(Api::Web3) == other@.contains(Api::Web3));
            assert(self@.contains(Api::Net) == other@.contains(Api::Net));
            assert(self@.contains(Api::Eth) == other@.contains(Api::Eth));
            assert(self@.contains(Api::EthPubSub) == other@.contains(Api::EthPubSub));
            assert(self@.contains(Api::Oasis) == other@.contains(Api::Oasis));
        }
    }

    /// The set without any API.
    pub fn new() -> (r: Apis)
        ensures
            r == Apis::none(),
    {
        Apis { web3: false, net: false, eth: false, pubsub: false, oasis: false }
    }

    /// The set of all APIs.
    pub fn all() -> (r: Apis)
        ensures
            r == Apis::every(),
    {
        Apis { web3: true, net: true, eth: true, pubsub: true, oasis: true }
    }

    /// Whether the set holds `api`.
    pub fn contains(&self, api: &Api) -> (r: bool)
        ensures
            r == self.has(*api),
    {
        match api {
            Api::Web3 => self.web3,
            Api::Net => self.net,
            Api::Eth => self.eth,
            Api::EthPubSub => self.pubsub,
            Api::Oasis => self.oasis,
        }
    }

    /// Puts `api` into the set. Returns whether the set did not hold it.
    pub fn insert(&mut self, api: Api) -> (r: bool)
        ensures
            *final(self) == old(self).with(api),
            r == !old(self).has(api),
    {
        let held = self.contains(&api);
        match api {
            Api::Web3 => {
                self.web3 = true;
            },
            Api::Net => {
                self.net = true;
            },
            Api::Eth => {
                self.eth = true;
            },
            Api::EthPubSub => {
                self.pubsub = true;
            },
            Api::Oasis => {
                self.oasis = true;
            },
        }
        !held
    }

    /// Takes `api` out of the set. Returns whether the set held it.
    pub fn remove(&mut self, api: &Api) -> (r: bool)
        ensures
            *final(self) == old(self).without(*api),
            r == old(self).has(*api),
    {
        let held = self.contains(api);
        match api {
            Api::Web3 => {
                self.web3 = false;
            },
            Api::Net => {
                self.net = false;
            },
            Api::Eth => {
                self.eth = false;
            },
            Api::EthPubSub => {
                self.pubsub = false;
            },
            Api::Oasis => {
                self.oasis = false;
            },
        }
        held
    }

    /// Puts every API of `other` into the set.
    pub fn extend(&mut self, other: Apis)
        ensures
            *final(self) == old(self).joined(other),
    {
        self.web3 = self.web3 || other.web3;
        self.net = self.net || other.net;
        self.eth = self.eth || other.eth;
        self.pubsub = self.pubsub || other.pubsub;
        self.oasis = self.oasis || other.oasis;
    }

    /// The number of APIs in the set.
    pub fn len(&self) -> (r: usize)
        ensures
            r == (if self.has(Api::Web3) { 1int } else { 0 }) + (if self.has(Api::Net) {
                1int
            } else {
                0
            }) + (if self.has(Api::Eth) { 1int } else { 0 }) + (if self.has(Api::EthPubSub) {
                1int
            } else {
                0
            }) + (if self.has(Api::Oasis) { 1int } else { 0 }),
    {
        let mut n: usize = 0;
        if self.web3 {
            n += 1;
        }
        if self.net {
            n += 1;
        }
        if self.eth {
            n += 1;
        }
        if self.pubsub {
            n += 1;
        }
        if self.oasis {
            n += 1;
        }
        n
    }

    /// The set that holds the APIs of `items`.
    pub fn from_vec(items: Vec<Api>) -> (r: Apis)
        ensures
            r == Apis::of(items@),
    {
        let mut apis = Apis::new();
        let mut i: usize = 0;
        while i < items.len()
            invariant
                i <= items@.len(),
                apis == Apis::of(items@.take(i as int)),
            decreases items.len() - i,
        {
            assert(items@.take(i + 1).drop_last() =~= items@.take(i as int));
            apis.insert(items[i]);
            i += 1;
        }
        assert(items@.take(items@.len() as int) =~= items@);
        apis
    }

    /// The APIs of the set, in the order in which `Api` lists them.
    pub fn to_vec(&self) -> (r: Vec<Api>)
        ensures
            r@ == self.listed(),
            Apis::of(r@) == *self,
            r@.no_duplicates(),
    {
        let mut out: Vec<Api> = Vec::new();
        if self.web3 {
            out.push(Api::Web3);
        }
        if self.net {
            out.push(Api::Net);
        }
        if self.eth {
            out.push(Api::Eth);
        }
        if self.pubsub {
            out.push(Api::EthPubSub);
        }
        if self.oasis {
            out.push(Api::Oasis);
        }
        proof {
            assert(out@ =~= self.listed());
            reveal_with_fuel(Apis::of, 6);
            assert(Apis::of(out@) == *self) by {
                let s = out@;
                assert(s.len() <= 5);
                if s.len() >= 1 {
                    let s1 = s.drop_last();
                    if s1.len() >= 1 {
                        let s2 = s1.drop_last();
                        if s2.len() >= 1 {
                            let s3 = s2.drop_last();
                            if s3.len() >= 1 {
                                let s4 = s3.drop_last();
                                assert(s4.len() <= 1);
                            }
                        }
                    }
                }
            }
        }
        out
    }
}

/// A set of APIs as a configuration names it.
#[derive(Debug, Clone)]
pub enum ApiSet {
    /// Safe context (like token-protected WS interface)
    SafeContext,
    /// Unsafe context (like jsonrpc over http)
    UnsafeContext,
    /// All possible APIs
    All,
    /// Fixed list of APis
    List(Apis),
}

impl ApiSet {
    /// The APIs that the set stands for. Every API is safe in every
    /// context, so only a fixed list holds fewer than all.
    pub open spec fn apis(&self) -> Apis {
        match *self {
            ApiSet::List(apis) => apis,
            ApiSet::UnsafeContext => Apis::every(),
            ApiSet::SafeContext => Apis::every(),
            ApiSet::All => Apis::every(),
        }
    }

    /// The APIs that the set stands for.
    pub fn list_apis(&self) -> (r: Apis)
        ensures
            r == self.apis(),
    {
        let public_list = Apis::all();
        match *self {
            ApiSet::List(apis) => apis,
            ApiSet::UnsafeContext => public_list,
            ApiSet::SafeContext => public_list,
            ApiSet::All => public_list,
        }
    }
}

impl Default for ApiSet {
    fn default() -> (r: ApiSet)
        ensures
            r == ApiSet::UnsafeContext,
    {
        ApiSet::UnsafeContext
    }
}

impl PartialEq for ApiSet {
    fn eq(&self, other: &Self) -> (r: bool) {
        self.list_apis() == other.list_apis()
    }
}

impl vstd::std_specs::cmp::PartialEqSpecImpl for ApiSet {
    open spec fn obeys_eq_spec() -> bool {
        true
    }

    open spec fn eq_spec(&self, other: &Self) -> bool {
        self.apis() == other.apis()
    }
}

/// The set after one item of a list of names was taken in: `all` and
/// `safe` put every API in, a name behind a minus sign takes its API out,
/// any other name puts its API in. A name that no API goes by gives what is
/// said of it.
pub open spec fn item_applied(apis: Apis, item: Seq<char>) -> Result<Apis, Seq<char>> {
    if item == "all"@ {
        Ok(apis.joined(Apis::every()))
    } else if item == "safe"@ {
        Ok(apis.joined(Apis::every()))
    } else if item.len() > 0 && item[0] == '-' {
        match api_named(item.skip(1)) {
            Some(api) => Ok(apis.without(api)),
            None => Err(unknown_api(item.skip(1))),
        }
    } else {
        match api_named(item) {
            Some(api) => Ok(apis.with(api)),
            None => Err(unknown_api(item)),
        }
    }
}

/// The set after the items of a list of names, which commas part, were
/// taken in one after the other, or what is said of the first name that no
/// API goes by.
pub open spec fn items_applied(apis: Apis, list: Seq<char>) -> Result<Apis, Seq<char>>
    decreases list.len(),
{
    let k = first_comma(list);
    match item_applied(apis, list.take(k)) {
        Err(e) => Err(e),
        Ok(next) => if 0 <= k < list.len() {
            items_applied(next, list.skip(k + 1))
        } else {
            Ok(next)
        },
    }
}

/// Takes one item of a list of names into the set.
fn apply_item(apis: Apis, item: &str) -> (r: Result<Apis, String>)
    ensures
        match item_applied(apis, item@) {
            Ok(next) => r == Ok::<Apis, String>(next),
            Err(e) => r is Err && r.unwrap_err()@ == e,
        },
{
    let mut apis = apis;
    if same_text(item, "all") {
        apis.extend(ApiSet::All.list_apis());
        Ok(apis)
    } else if same_text(item, "safe") {
        apis.extend(ApiSet::UnsafeContext.list_apis());
        Ok(apis)
    } else {
        let n = item.unicode_len();
        if n > 0 && item.get_char(0) == '-' {
            let name = item.substring_char(1, n);
            assert(name@ =~= item@.skip(1));
            match Api::parse(name) {
                Ok(api) => {
                    apis.remove(&api);
                    Ok(apis)
                },
                Err(e) => Err(e),
            }
        } else {
            match Api::parse(item) {
                Ok(api) => {
                    apis.insert(api);
                    Ok(apis)
                },
                Err(e) => Err(e),
            }
        }
    }
}

impl ApiSet {
    /// The set that a list of names stands for.
    pub fn parse(s: &str) -> (r: Result<ApiSet, String>)
        ensures
            match items_applied(Apis::none(), s@) {
                Ok(apis) => r is Ok && r.unwrap() == ApiSet::List(apis),
                Err(e) => r is Err && r.unwrap_err()@ == e,
            },
    {
        let n = s.unicode_len();
        let mut apis = Apis::new();
        let mut start: usize = 0;
        assert(s@.skip(0) =~= s@);
        loop
            invariant
                start <= n,
                n == s@.len(),
                items_applied(Apis::none(), s@) == items_applied(apis, s@.skip(start as int)),
            decreases n - start,
        {
            let mut end: usize = start;
            while end < n && s.get_char(end) != ','
                invariant
                    start <= end <= n,
                    n == s@.len(),
                    forall|j: int| start <= j < end ==> s@[j] != ',',
                decreases n - end,
            {
                end += 1;
            }
            let item = s.substring_char(start, end);
            proof {
                let rest = s@.skip(start as int);
                assert(forall|j: int| 0 <= j < end - start ==> rest[j] == s@[start + j]);
                lemma_first_comma(rest, end - start);
                assert(item@ =~= rest.take(end - start));
                if end < n {
                    assert(rest.skip(end - start + 1) =~= s@.skip(end + 1));
                }
            }
            match apply_item(apis, item) {
                Err(e) => {
                    return Err(e);
                },
                Ok(next) => {
                    apis = next;
                },
            }
            if end >= n {
                return Ok(ApiSet::List(apis));
            }
            start = end + 1;
        }
    }
}

impl std::str::FromStr for ApiSet {
    type Err = String;

    fn from_str(s: &str) -> (r: Result<Self, Self::Err>)
        ensures
            match items_applied(Apis::none(), s@) {
                Ok(apis) => r is Ok && r.unwrap() == ApiSet::List(apis),
                Err(e) => r is Err && r.unwrap_err()@ == e,
            },
    {
        ApiSet::parse(s)
    }
}

/// One set of RPC methods that a server can put on its handler.
#[derive(Debug, PartialEq, Clone, Copy, Eq, Hash, Structural)]
pub enum Endpoint {
    Web3,
    Net,
    Eth,
    EthSigning,
    EthFilter,
    EthPubSub,
    Oasis,
}

/// The endpoints that offering `api` puts on a handler. A handler for
/// generic pub-sub gets neither the filter endpoint nor the pub-sub
/// endpoint.
pub open spec fn endpoints_of(api: Api, for_generic_pubsub: bool) -> Seq<Endpoint> {
    match api {
        Api::Web3 => seq![Endpoint::Web3],
        Api::Net => seq![Endpoint::Net],
        Api::Eth => if for_generic_pubsub {
            seq![Endpoint::Eth, Endpoint::EthSigning]
        } else {
            seq![Endpoint::Eth, Endpoint::EthSigning, Endpoint::EthFilter]
        },
        Api::EthPubSub => if for_generic_pubsub {
            Seq::empty()
        } else {
            seq![Endpoint::EthPubSub]
        },
        Api::Oasis => seq![Endpoint::Oasis],
    }
}

/// The endpoints that offering `api` puts on a handler, in the order in
/// which they are put there.
pub fn endpoints(api: Api, for_generic_pubsub: bool) -> (r: Vec<Endpoint>)
    ensures
        r@ == endpoints_of(api, for_generic_pubsub),
{
    let mut out: Vec<Endpoint> = Vec::new();
    match api {
        Api::Web3 => {
            out.push(Endpoint::Web3);
        },
        Api::Net => {
            out.push(Endpoint::Net);
        },
        Api::Eth => {
            out.push(Endpoint::Eth);
            out.push(Endpoint::EthSigning);
            if !for_generic_pubsub {
                out.push(Endpoint::EthFilter);
            }
        },
        Api::EthPubSub => {
            if !for_generic_pubsub {
                out.push(Endpoint::EthPubSub);
            }
        },
        Api::Oasis => {
            out.push(Endpoint::Oasis);
        },
    }
    assert(out@ =~= endpoints_of(api, for_generic_pubsub));
    out
}

} // verus!
