//! The merged catalog of built-in and remote tools, and how a call is routed
//! to the owner of a tool.
use vstd::prelude::*;
use crate::json::{JsonValue, same_text};
use crate::keyed::{lookup, unique_keys, upsert};
use crate::protocol::{ProtocolError, Tool};
use crate::text::string_views;
use crate::tools::{ArgError, BuiltinCall, BuiltinTool, BuiltinToolRegistry, decodes, tool_names};

verus! {

/// The owner under which built-in tools are listed.
pub const BUILTIN_OWNER: &'static str = "builtin";

/// The last tool of `ts` named `name`.
pub open spec fn last_named(ts: Seq<Tool>, name: Seq<char>) -> Option<Tool>
    decreases ts.len(),
{
    if ts.len() == 0 {
        None
    } else if ts.last().name@ == name {
        Some(ts.last())
    } else {
        last_named(ts.drop_last(), name)
    }
}

/// Whether some tool of `ts` is named `name`.
pub open spec fn lists(ts: Seq<Tool>, name: Seq<char>) -> bool {
    exists|i: int| 0 <= i < ts.len() && (#[trigger] ts[i]).name@ == name
}

/// A list names a tool exactly when a last tool of that name exists.
pub proof fn lemma_last_named_some(ts: Seq<Tool>, name: Seq<char>)
    ensures
        last_named(ts, name) is Some <==> lists(ts, name),
    decreases ts.len(),
{
    if ts.len() > 0 {
        let t = ts.drop_last();
        lemma_last_named_some(t, name);
        if lists(t, name) {
            let j = choose|j: int| 0 <= j < t.len() && (#[trigger] t[j]).name@ == name;
            assert(ts[j] == t[j]);
        }
        if lists(ts, name) && ts.last().name@ != name {
            let j = choose|j: int| 0 <= j < ts.len() && (#[trigger] ts[j]).name@ == name;
            assert(t[j] == ts[j]);
        }
    }
}

/// The tool that a name finds in a list carries that name.
pub proof fn lemma_last_named_name(ts: Seq<Tool>, name: Seq<char>)
    ensures
        last_named(ts, name) matches Some(t) ==> t.name@ == name,
    decreases ts.len(),
{
    if ts.len() > 0 && ts.last().name@ != name {
        lemma_last_named_name(ts.drop_last(), name);
    }
}

/// Tool names mapped to their owner and descriptor, each name once.
#[derive(Debug)]
pub struct ToolCatalog {
    tools: Vec<(String, (String, Tool))>,
}

impl ToolCatalog {
    /// Each tool name stands once.
    pub open spec fn wf(self) -> bool {
        unique_keys(self.entries())
    }

    /// The entries, in the order their names were first registered.
    pub closed spec fn entries(self) -> Seq<(String, (String, Tool))> {
        self.tools@
    }

    /// The owner of the tool `name`.
    pub open spec fn owner_of(self, name: Seq<char>) -> Option<Seq<char>> {
        match lookup(self.entries(), name) {
            Some(e) => Some(e.0@),
            None => None,
        }
    }

    /// The descriptor of the tool `name`.
    pub open spec fn tool_of(self, name: Seq<char>) -> Option<Tool> {
        match lookup(self.entries(), name) {
            Some(e) => Some(e.1),
            None => None,
        }
    }

    /// An empty catalog.
    pub fn new() -> (c: ToolCatalog)
        ensures
            c.entries().len() == 0,
            c.wf(),
            forall|n: Seq<char>| #[trigger] c.owner_of(n) is None,
            forall|n: Seq<char>| #[trigger] c.tool_of(n) is None,
    {
        ToolCatalog { tools: Vec::new() }
    }

    /// Registers the tools `tools` under `owner`, in order: a name already
    /// present, from any owner, is taken over by the last of these that
    /// carries it.
    pub fn merge(&mut self, owner: &str, tools: Vec<Tool>)
        ensures
            merged_from(*final(self), *old(self), owner@, tools@),
            old(self).wf() ==> final(self).wf(),
    {
        let ghost before = *self;
        let ghost ts = tools@;
        for t in it: tools
            invariant
                it.seq() == ts,
                merged_from(*self, before, owner@, ts.take(it.index() as int)),
                before.wf() ==> self.wf(),
        {
            let ghost k = it.index();
            let ghost mid = *self;
            assert(ts.take(k + 1).drop_last() =~= ts.take(k as int));
            assert(ts.take(k + 1).last() == t);
            let key = t.name.clone();
            upsert(&mut self.tools, key, (owner.to_owned(), t));
            assert forall|n: Seq<char>| #[trigger] self.owner_of(n) == merged_owner(before, owner@, ts.take(k + 1), n)
                && self.tool_of(n) == merged_tool(before, ts.take(k + 1), n) by {
                if n != t.name@ {
                    assert(lookup(self.tools@, n) == lookup(mid.tools@, n));
                    assert(mid.owner_of(n) == merged_owner(before, owner@, ts.take(k as int), n));
                    assert(mid.tool_of(n) == merged_tool(before, ts.take(k as int), n));
                    assert(last_named(ts.take(k + 1), n) == last_named(ts.take(k as int), n));
                } else {
                    assert(last_named(ts.take(k + 1), n) == Some(t));
                }
            }
            assert forall|n: Seq<char>| #[trigger] self.tool_of(n) == merged_tool(before, ts.take(k + 1), n) by {
                assert(self.owner_of(n) == merged_owner(before, owner@, ts.take(k + 1), n));
            }
        }
        assert(ts.take(ts.len() as int) =~= ts);
    }

    /// The owner and descriptor of the tool `name`.
    pub fn get(&self, name: &str) -> (r: Option<&(String, Tool)>)
        ensures
            r is Some <==> lookup(self.entries(), name@) is Some,
            r is Some ==> *r.unwrap() == lookup(self.entries(), name@).unwrap(),
    {
        match crate::keyed::position(&self.tools, name) {
            Some(i) => {
                proof {
                    crate::keyed::lemma_lookup_first(self.tools@, i as int, name@);
                }
                Some(&self.tools[i].1)
            },
            None => {
                proof {
                    crate::keyed::lemma_lookup_some(self.tools@, name@);
                }
                None
            },
        }
    }

    /// The entries, each a tool name with its owner and descriptor.
    pub fn get_tools_with_server(&self) -> (r: &Vec<(String, (String, Tool))>)
        ensures
            r@ == self.entries(),
    {
        &self.tools
    }

    /// The descriptors, in catalog order.
    pub fn list_tools(&self) -> (r: Vec<&Tool>)
        ensures
            r@.len() == self.entries().len(),
            forall|i: int| 0 <= i < r@.len() ==> *r@[i] == (#[trigger] self.entries()[i]).1.1,
    {
        let mut out: Vec<&Tool> = Vec::new();
        let mut i: usize = 0;
        while i < self.tools.len()
            invariant
                i <= self.tools@.len(),
                out@.len() == i,
                forall|j: int| 0 <= j < i ==> *out@[j] == (#[trigger] self.tools@[j]).1.1,
            decreases self.tools@.len() - i,
        {
            out.push(&self.tools[i].1.1);
            i += 1;
        }
        out
    }

    /// Whether any tool is listed.
    pub fn has_tools(&self) -> (r: bool)
        ensures
            r == (self.entries().len() > 0),
    {
        self.tools.len() > 0
    }
}

/// The owner of `name` after the tools `ts` are merged under `owner` into
/// `before`.
pub open spec fn merged_owner(before: ToolCatalog, owner: Seq<char>, ts: Seq<Tool>, name: Seq<char>) -> Option<Seq<char>> {
    if last_named(ts, name) is Some {
        Some(owner)
    } else {
        before.owner_of(name)
    }
}

/// The descriptor of `name` after the tools `ts` are merged into `before`.
pub open spec fn merged_tool(before: ToolCatalog, ts: Seq<Tool>, name: Seq<char>) -> Option<Tool> {
    match last_named(ts, name) {
        Some(t) => Some(t),
        None => before.tool_of(name),
    }
}

/// Whether `after` is `before` with the tools `ts` merged in under `owner`.
pub open spec fn merged_from(after: ToolCatalog, before: ToolCatalog, owner: Seq<char>, ts: Seq<Tool>) -> bool {
    &&& forall|n: Seq<char>| #[trigger] after.owner_of(n) == merged_owner(before, owner, ts, n)
    &&& forall|n: Seq<char>| #[trigger] after.tool_of(n) == merged_tool(before, ts, n)
}

/// Catalog construction goes by registration order: of servers merged one
/// after the other, a tool name that the later one lists is owned by the
/// later one, and a name that only the earlier one lists stays with it.
pub proof fn lemma_later_registration_wins(
    c0: ToolCatalog,
    c1: ToolCatalog,
    c2: ToolCatalog,
    s1: Seq<char>,
    t1: Seq<Tool>,
    s2: Seq<char>,
    t2: Seq<Tool>,
    name: Seq<char>,
)
    requires
        merged_from(c1, c0, s1, t1),
        merged_from(c2, c1, s2, t2),
    ensures
        lists(t2, name) ==> c2.owner_of(name) == Some(s2),
        !lists(t2, name) && lists(t1, name) ==> c2.owner_of(name) == Some(s1),
        !lists(t2, name) && !lists(t1, name) ==> c2.owner_of(name) == c0.owner_of(name),
{
    lemma_last_named_some(t1, name);
    lemma_last_named_some(t2, name);
    assert(c2.owner_of(name) == merged_owner(c1, s2, t2, name));
    assert(c1.owner_of(name) == merged_owner(c0, s1, t1, name));
}

/// The descriptor under which the built-in tool `b` is listed: its name,
/// description and input schema.
pub open spec fn builtin_descriptor(b: BuiltinTool) -> Tool {
    Tool { name: b.name, description: b.description, input_schema: b.input_schema }
}

/// The descriptors of a list of built-in tools, one for each.
pub open spec fn builtin_descriptors(bs: Seq<BuiltinTool>) -> Seq<Tool> {
    bs.map_values(|b: BuiltinTool| builtin_descriptor(b))
}

/// Whether every descriptor in `c` carries the name it is listed under.
pub open spec fn names_match(c: ToolCatalog) -> bool {
    forall|n: Seq<char>| (#[trigger] c.tool_of(n) matches Some(t) ==> t.name@ == n)
}

/// The descriptor under which a built-in tool is listed.
pub fn descriptor(b: BuiltinTool) -> (t: Tool)
    ensures
        t == builtin_descriptor(b),
{
    Tool { name: b.name, description: b.description, input_schema: b.input_schema }
}

/// Where a call goes.
#[derive(Debug)]
pub enum Route {
    /// To the built-in tools.
    Builtin,
    /// To the connected server of this name.
    Server(String),
}

/// What a call is to do: run a built-in tool with decoded arguments, or go
/// to the connected server of this name.
#[derive(Debug)]
pub enum CallPlan {
    Builtin(BuiltinCall),
    Remote(String),
}

/// Why a call failed before or instead of any tool running.
#[derive(Debug)]
pub enum CallError {
    /// No tool of this name is in the catalog.
    ToolNotFound(String),
    /// The tool's owner is not connected.
    ServerNotConnected(String),
    /// The arguments do not fit the built-in tool.
    InvalidArguments(ArgError),
    /// The exchange with the owning server failed.
    Protocol(ProtocolError),
}

/// The catalog of tools together with the servers that are connected: what
/// decides where each call goes.
#[derive(Debug)]
pub struct ToolFederation {
    catalog: ToolCatalog,
    connected: Vec<String>,
}

/// Whether the text `s` is one of `names`.
pub open spec fn among(names: Seq<Seq<char>>, s: Seq<char>) -> bool {
    names.contains(s)
}

impl ToolFederation {
    /// The catalog.
    pub closed spec fn catalog(self) -> ToolCatalog {
        self.catalog
    }

    /// The names of the connected servers, in the order they connected.
    pub closed spec fn servers(self) -> Seq<Seq<char>> {
        string_views(self.connected@)
    }

    /// Whether every descriptor carries the name it is listed under, and
    /// every owner is the built-in owner or a connected server.
    pub open spec fn consistent(self) -> bool {
        &&& names_match(self.catalog())
        &&& forall|n: Seq<char>| (#[trigger] self.catalog().owner_of(n) matches Some(o)
            ==> o == BUILTIN_OWNER@ || among(self.servers(), o))
    }

    /// A federation with the built-in tools listed under the built-in owner
    /// and no server connected.
    pub fn new(builtins: BuiltinToolRegistry) -> (f: ToolFederation)
        ensures
            f.servers().len() == 0,
            f.catalog().wf(),
            forall|n: Seq<char>| #[trigger] f.catalog().owner_of(n)
                == if tool_names(builtins@).contains(n) { Some(BUILTIN_OWNER@) } else { None },
            forall|n: Seq<char>| #[trigger] f.catalog().tool_of(n) == last_named(builtin_descriptors(builtins@), n),
            f.consistent(),
    {
        let ghost names = tool_names(builtins@);
        let tools = builtins.into_tools();
        let ghost bs = tools@;
        let mut descs: Vec<Tool> = Vec::new();
        for b in it: tools
            invariant
                it.seq() == bs,
                descs@.len() == it.index(),
                descs@ == builtin_descriptors(bs.take(it.index() as int)),
        {
            let ghost k = it.index();
            descs.push(descriptor(b));
            assert(bs.take(k + 1) =~= bs.take(k as int).push(b));
            assert(descs@ =~= builtin_descriptors(bs.take(k + 1)));
        }
        assert(bs.take(bs.len() as int) =~= bs);
        let ghost ds = descs@;
        assert(ds == builtin_descriptors(bs));
        let mut catalog = ToolCatalog::new();
        let ghost empty = catalog;
        catalog.merge(BUILTIN_OWNER, descs);
        let f = ToolFederation { catalog, connected: Vec::new() };
        assert(f.servers() =~= seq![]);
        assert forall|n: Seq<char>| #[trigger] f.catalog().owner_of(n)
            == if names.contains(n) { Some(BUILTIN_OWNER@) } else { None } by {
            lemma_last_named_some(ds, n);
            if names.contains(n) {
                let k = choose|k: int| 0 <= k < names.len() && names[k] == n;
                assert(tool_names(bs)[k] == bs[k].name@);
                assert(ds[k] == builtin_descriptor(bs[k]));
                assert(ds[k].name@ == n);
            }
            if lists(ds, n) {
                let k = choose|k: int| 0 <= k < ds.len() && (#[trigger] ds[k]).name@ == n;
                assert(tool_names(bs)[k] == bs[k].name@);
                assert(ds[k] == builtin_descriptor(bs[k]));
                assert(names[k] == n);
            }
            assert(empty.owner_of(n) is None);
        }
        assert forall|n: Seq<char>| #[trigger] f.catalog().tool_of(n) == last_named(ds, n) by {
            assert(empty.tool_of(n) is None);
        }
        assert forall|n: Seq<char>| (#[trigger] f.catalog().tool_of(n) matches Some(t) ==> t.name@ == n) by {
            lemma_last_named_name(ds, n);
        }
        assert forall|n: Seq<char>| (#[trigger] f.catalog().owner_of(n) matches Some(o)
            ==> o == BUILTIN_OWNER@ || among(f.servers(), o)) by {
            lemma_last_named_some(ds, n);
        }
        f
    }

    /// The catalog.
    pub fn catalog_ref(&self) -> (c: &ToolCatalog)
        ensures
            *c == self.catalog(),
    {
        &self.catalog
    }

    /// Whether the server `name` is connected.
    pub fn is_connected(&self, name: &str) -> (r: bool)
        ensures
            r == among(self.servers(), name@),
    {
        let mut i: usize = 0;
        while i < self.connected.len()
            invariant
                i <= self.connected@.len(),
                forall|j: int| 0 <= j < i ==> (#[trigger] self.connected@[j])@ != name@,
            decreases self.connected@.len() - i,
        {
            if same_text(self.connected[i].as_str(), name) {
                assert(self.servers()[i as int] == name@);
                return true;
            }
            i += 1;
        }
        assert(!self.servers().contains(name@)) by {
            if self.servers().contains(name@) {
                let k = choose|k: int| 0 <= k < self.servers().len() && self.servers()[k] == name@;
                assert(self.servers()[k] == self.connected@[k]@);
            }
        }
        false
    }

    /// Records that the server `name` connected.
    pub fn add_connected(&mut self, name: String)
        ensures
            final(self).catalog() == old(self).catalog(),
            among(old(self).servers(), name@) ==> final(self).servers() == old(self).servers(),
            !among(old(self).servers(), name@) ==> final(self).servers() == old(self).servers().push(name@),
            old(self).consistent() ==> final(self).consistent(),
    {
        if !self.is_connected(name.as_str()) {
            let ghost before = self.servers();
            self.connected.push(name);
            assert(self.servers() =~= before.push(name@));
            assert forall|o: Seq<char>| among(before, o) implies among(self.servers(), o) by {
                let k = choose|k: int| 0 <= k < before.len() && before[k] == o;
                assert(self.servers()[k] == o);
            }
        }
    }

    /// Takes in what the server `server` listed: its tools are merged into
    /// the catalog under its name; a failed listing leaves the catalog as it
    /// was and is handed back.
    pub fn discover(&mut self, server: &str, listed: Result<Vec<Tool>, ProtocolError>) -> (r: Option<ProtocolError>)
        requires
            among(old(self).servers(), server@),
        ensures
            old(self).consistent() ==> final(self).consistent(),
            final(self).servers() == old(self).servers(),
            old(self).catalog().wf() ==> final(self).catalog().wf(),
            listed matches Ok(ts) ==> r is None && merged_from(final(self).catalog(), old(self).catalog(), server@, ts@),
            listed is Err ==> r == Some(listed->Err_0) && final(self).catalog() == old(self).catalog(),
    {
        match listed {
            Ok(tools) => {
                let ghost ts = tools@;
                let ghost before = *self;
                self.catalog.merge(server, tools);
                proof {
                    if before.consistent() {
                        assert forall|n: Seq<char>| (#[trigger] self.catalog().tool_of(n) matches Some(t) ==> t.name@ == n) by {
                            lemma_last_named_name(ts, n);
                            assert(before.catalog().tool_of(n) matches Some(t) ==> t.name@ == n);
                        }
                        assert forall|n: Seq<char>| (#[trigger] self.catalog().owner_of(n) matches Some(o)
                            ==> o == BUILTIN_OWNER@ || among(self.servers(), o)) by {
                            assert(before.catalog().owner_of(n) matches Some(o) ==> o == BUILTIN_OWNER@ || among(before.servers(), o));
                        }
                    }
                }
                None
            },
            Err(e) => Some(e),
        }
    }

    /// Where a call of the tool `name` goes: nowhere for an unknown name, to
    /// the built-in tools for one they own, else to the owning server where
    /// it is connected.
    pub fn route(&self, name: &str) -> (r: Result<Route, CallError>)
        ensures
            self.catalog().owner_of(name@) is None ==> (r matches Err(CallError::ToolNotFound(n)) && n@ == name@),
            self.catalog().owner_of(name@) == Some(BUILTIN_OWNER@) ==> (r matches Ok(Route::Builtin)),
            self.catalog().owner_of(name@) matches Some(o) ==> (o != BUILTIN_OWNER@ && among(self.servers(), o)
                ==> (r matches Ok(Route::Server(s)) && s@ == o)),
            self.catalog().owner_of(name@) matches Some(o) ==> (o != BUILTIN_OWNER@ && !among(self.servers(), o)
                ==> (r matches Err(CallError::ServerNotConnected(s)) && s@ == o)),
    {
        match self.catalog.get(name) {
            None => Err(CallError::ToolNotFound(name.to_owned())),
            Some(entry) => {
                let owner = &entry.0;
                if same_text(owner.as_str(), BUILTIN_OWNER) {
                    Ok(Route::Builtin)
                } else if self.is_connected(owner.as_str()) {
                    Ok(Route::Server(owner.clone()))
                } else {
                    Err(CallError::ServerNotConnected(owner.clone()))
                }
            },
        }
    }

    /// Ends every connection: the servers to shut down, in the order they
    /// connected. The catalog stays until it is rebuilt.
    pub fn shutdown(&mut self) -> (r: Vec<String>)
        ensures
            string_views(r@) == old(self).servers(),
            final(self).servers().len() == 0,
            final(self).catalog() == old(self).catalog(),
            names_match(old(self).catalog()) ==> names_match(final(self).catalog()),
    {
        let mut r: Vec<String> = Vec::new();
        std::mem::swap(&mut r, &mut self.connected);
        assert(self.servers() =~= seq![]);
        r
    }
}

impl ToolFederation {
    /// What a call of the tool `name` with `args` is to do: an unknown name
    /// or an unconnected owner fails as `route` says; a built-in tool has
    /// its arguments decoded, and arguments that do not fit fail the call.
    pub fn plan_call(&self, builtins: &BuiltinToolRegistry, name: &str, args: &JsonValue) -> (r: Result<CallPlan, CallError>)
        ensures
            self.catalog().owner_of(name@) is None ==> (r matches Err(CallError::ToolNotFound(n)) && n@ == name@),
            self.catalog().owner_of(name@) == Some(BUILTIN_OWNER@) ==> (
                (r matches Ok(CallPlan::Builtin(c)) && decodes(name@, *args, Ok(c)))
                || (r matches Err(CallError::InvalidArguments(e)) && decodes(name@, *args, Err(e)))),
            self.catalog().owner_of(name@) matches Some(o) ==> (o != BUILTIN_OWNER@ && among(self.servers(), o)
                ==> (r matches Ok(CallPlan::Remote(s)) && s@ == o)),
            self.catalog().owner_of(name@) matches Some(o) ==> (o != BUILTIN_OWNER@ && !among(self.servers(), o)
                ==> (r matches Err(CallError::ServerNotConnected(s)) && s@ == o)),
    {
        match self.route(name) {
            Err(e) => Err(e),
            Ok(Route::Builtin) => match builtins.prepare(name, args) {
                Ok(c) => Ok(CallPlan::Builtin(c)),
                Err(e) => Err(CallError::InvalidArguments(e)),
            },
            Ok(Route::Server(s)) => Ok(CallPlan::Remote(s)),
        }
    }
}

/// The owner of `name` after the servers `owners` merged the lists `listed`
/// into `c0`, one after the other: the last server whose list names it, or
/// the owner it had in `c0` where none does.
pub open spec fn owner_after(c0: ToolCatalog, owners: Seq<Seq<char>>, listed: Seq<Seq<Tool>>, name: Seq<char>) -> Option<Seq<char>>
    decreases owners.len(),
{
    if owners.len() == 0 || listed.len() != owners.len() {
        c0.owner_of(name)
    } else if lists(listed.last(), name) {
        Some(owners.last())
    } else {
        owner_after(c0, owners.drop_last(), listed.drop_last(), name)
    }
}

/// Catalog construction is determined by the order of registration: after
/// any number of servers merge their lists one after the other, each name
/// is owned by the last server that lists it, and keeps its earlier owner
/// where none does.
pub proof fn lemma_registration_order(
    cs: Seq<ToolCatalog>,
    owners: Seq<Seq<char>>,
    listed: Seq<Seq<Tool>>,
    name: Seq<char>,
)
    requires
        cs.len() == owners.len() + 1,
        listed.len() == owners.len(),
        forall|i: int| 0 <= i < owners.len() ==> merged_from(#[trigger] cs[i + 1], cs[i], owners[i], listed[i]),
    ensures
        cs.last().owner_of(name) == owner_after(cs[0], owners, listed, name),
    decreases owners.len(),
{
    if owners.len() > 0 {
        let k = owners.len() - 1;
        let cs2 = cs.drop_last();
        assert forall|i: int| 0 <= i < owners.drop_last().len() implies merged_from(
            #[trigger] cs2[i + 1], cs2[i], owners.drop_last()[i], listed.drop_last()[i]) by {
            assert(merged_from(cs[i + 1], cs[i], owners[i], listed[i]));
        }
        lemma_registration_order(cs2, owners.drop_last(), listed.drop_last(), name);
        assert(merged_from(cs[k + 1], cs[k], owners[k], listed[k]));
        lemma_last_named_some(listed[k], name);
        assert(cs.last().owner_of(name) == merged_owner(cs[k], owners[k], listed[k], name));
    }
}

} // verus!
