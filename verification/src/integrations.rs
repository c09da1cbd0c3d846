//! The registry of integrations, and the demo integration.

use vstd::prelude::*;
use rand::Rng;
use crate::strmap::StrMap;
use crate::text::{i64_to_string, lit, owned, push_str, signed_decimal, str_eq, views};
use crate::tools::{tool_spec, ToolSpec};
use crate::types::{ToolResult, ToolRisk};

verus! {

broadcast use vstd::string::group_string_axioms;

/// The integrations by id, with their names.
pub struct IntegrationRegistry {
    integrations: StrMap<String>,
}

impl IntegrationRegistry {
    /// The integrations by id, with their names.
    pub closed spec fn integrations_view(&self) -> Map<Seq<char>, Seq<char>> {
        self.integrations@.map_values(|n: String| n@)
    }

    /// The ids in increasing order.
    pub closed spec fn ids(&self) -> Seq<Seq<char>> {
        self.integrations.sorted_keys()
    }

    /// The entries are sorted.
    pub closed spec fn wf(&self) -> bool {
        self.integrations.wf()
    }

    /// No integrations.
    pub fn new() -> (r: Self)
        ensures
            r.wf(),
            r.integrations_view() == Map::<Seq<char>, Seq<char>>::empty(),
    {
        let r = IntegrationRegistry { integrations: StrMap::new() };
        assert(r.integrations_view() =~= Map::<Seq<char>, Seq<char>>::empty());
        r
    }

    /// Registers an integration under its id, replacing one with the same id.
    pub fn register(&mut self, id: &str, name: &str)
        requires
            old(self).wf(),
        ensures
            final(self).wf(),
            final(self).integrations_view() == old(self).integrations_view().insert(id@, name@),
    {
        let ghost before = self.integrations@;
        self.integrations.insert(owned(id), owned(name));
        assert(self.integrations_view() =~= before.map_values(|n: String| n@).insert(id@, name@));
    }

    /// The name of the integration `id`, if registered.
    pub fn get(&self, id: &str) -> (r: Option<String>)
        requires
            self.wf(),
        ensures
            match r {
                Some(n) => self.integrations_view().contains_key(id@) && n@ == self.integrations_view()[id@],
                None => !self.integrations_view().contains_key(id@),
            },
    {
        match self.integrations.get(id) {
            Some(n) => Some(n.clone()),
            None => None,
        }
    }

    /// The integrations as `(id, name)`, in increasing order of id.
    pub fn list(&self) -> (r: Vec<(String, String)>)
        requires
            self.wf(),
        ensures
            r@.len() == self.ids().len(),
            forall|i: int|
                0 <= i < r@.len() ==> (#[trigger] r@[i]).0@ == self.ids()[i] && r@[i].1@
                    == self.integrations_view()[self.ids()[i]],
    {
        proof {
            self.integrations.lemma_view();
        }
        let n = self.integrations.count();
        let mut out: Vec<(String, String)> = Vec::new();
        let mut i: usize = 0;
        while i < n
            invariant
                self.integrations.wf(),
                n == self.integrations.entry_seq().len(),
                n == self.ids().len(),
                self.ids() == self.integrations.sorted_keys(),
                forall|k: int|
                    0 <= k < self.integrations.entry_seq().len() ==> #[trigger] self.integrations.entry_seq()[k]
                        == (self.ids()[k], self.integrations@[self.ids()[k]]),
                forall|k: Seq<char>| self.integrations@.contains_key(k) <==> self.ids().contains(k),
                i <= n,
                out@.len() == i,
                forall|k: int|
                    0 <= k < i ==> (#[trigger] out@[k]).0@ == self.ids()[k] && out@[k].1@
                        == self.integrations_view()[self.ids()[k]],
            decreases n - i,
        {
            let (id, name) = self.integrations.entry_at(i);
            assert(self.integrations.entry_seq()[i as int] == (self.ids()[i as int], self.integrations@[self.ids()[i as int]]));
            assert(self.ids().contains(self.ids()[i as int]));
            out.push((id.clone(), name.clone()));
            i = i + 1;
        }
        out
    }
}

/// `rand::Rng::gen_range(min..=max)` with the thread's generator: a random
/// number from `min` to `max`, both included. Nothing else is known of which.
#[verifier::external_body]
fn random_between(min: i64, max: i64) -> (r: i64)
    requires
        min < max,
    ensures
        min <= r <= max,
{
    rand::thread_rng().gen_range(min..=max)
}

/// The demo integration, with an echo tool and a random-number tool.
pub struct DemoIntegration;

impl DemoIntegration {
    /// Its id.
    pub fn id(&self) -> (r: String)
        ensures
            r@ == "demo"@,
    {
        lit("demo")
    }

    /// Its name.
    pub fn name(&self) -> (r: String)
        ensures
            r@ == "Demo Integration"@,
    {
        lit("Demo Integration")
    }

    /// Its tools: `demo.echo` and `demo.random_number`.
    pub fn tools(&self) -> (r: Vec<ToolSpec>)
        ensures
            r@.len() == 2,
            r@[0].name@ == "demo.echo"@,
            r@[0].risk == ToolRisk::Low && !r@[0].side_effect,
            r@[1].name@ == "demo.random_number"@,
            r@[1].risk == ToolRisk::Low && !r@[1].side_effect,
    {
        let mut v = Vec::new();
        v.push(tool_spec("demo.echo", "Echo back the given message.", ToolRisk::Low, false));
        v.push(
            tool_spec(
                "demo.random_number",
                "Generate a random number between min and max.",
                ToolRisk::Low,
                false,
            ),
        );
        v
    }

    /// The answer of `demo.echo`: the message, or a placeholder without one.
    pub fn echo(&self, call_id: &str, message: Option<String>) -> (r: ToolResult)
        ensures
            r.tool_call_id@ == call_id@,
            r.name@ == "demo.echo"@,
            !r.is_error,
            r.content@ == match message {
                Some(m) => m@,
                None => "(no message)"@,
            },
    {
        let content = match message {
            Some(m) => m,
            None => lit("(no message)"),
        };
        ToolResult { tool_call_id: owned(call_id), name: lit("demo.echo"), content, is_error: false }
    }

    /// The number `demo.random_number` draws: from `min` (0 by default) to
    /// `max` (100 by default), both included; `min` itself when the range
    /// holds at most that one number.
    pub fn draw(&self, min: Option<i64>, max: Option<i64>) -> (r: i64)
        ensures
            ({
                let lo = match min {
                    Some(m) => m,
                    None => 0,
                };
                let hi = match max {
                    Some(m) => m,
                    None => 100,
                };
                if lo >= hi {
                    r == lo
                } else {
                    lo <= r <= hi
                }
            }),
    {
        let lo: i64 = match min {
            Some(m) => m,
            None => 0,
        };
        let hi: i64 = match max {
            Some(m) => m,
            None => 100,
        };
        if lo >= hi {
            lo
        } else {
            random_between(lo, hi)
        }
    }

    /// The answer for a tool this integration does not have.
    pub fn unknown(&self, call_id: &str, name: &str) -> (r: ToolResult)
        ensures
            r.tool_call_id@ == call_id@,
            r.name@ == name@,
            r.is_error,
            r.content@ == "Unknown demo tool: "@ + name@,
    {
        let mut content = lit("Unknown demo tool: ");
        push_str(&mut content, name);
        ToolResult { tool_call_id: owned(call_id), name: owned(name), content, is_error: true }
    }

    /// Runs one of the demo tools on its arguments, read beforehand from the
    /// call: `message` for `demo.echo`, `min` and `max` for
    /// `demo.random_number`.
    pub fn call_tool(
        &self,
        call_id: &str,
        name: &str,
        message: Option<String>,
        min: Option<i64>,
        max: Option<i64>,
    ) -> (r: ToolResult)
        ensures
            r.tool_call_id@ == call_id@,
            r.name@ == name@,
            name@ == "demo.echo"@ ==> !r.is_error && r.content@ == match message {
                Some(m) => m@,
                None => "(no message)"@,
            },
            name@ == "demo.random_number"@ ==> !r.is_error && exists|n: i64|
                r.content@ == signed_decimal(n as int) && ({
                    let lo = match min {
                        Some(m) => m,
                        None => 0,
                    };
                    let hi = match max {
                        Some(m) => m,
                        None => 100,
                    };
                    if lo >= hi {
                        n == lo
                    } else {
                        lo <= n <= hi
                    }
                }),
            name@ != "demo.echo"@ && name@ != "demo.random_number"@ ==> r.is_error && r.content@
                == "Unknown demo tool: "@ + name@,
    {
        proof {
            reveal_strlit("demo.echo");
            reveal_strlit("demo.random_number");
        }
        if str_eq(name, "demo.echo") {
            assert(name@.len() != "demo.random_number"@.len());
            self.echo(call_id, message)
        } else if str_eq(name, "demo.random_number") {
            let n = self.draw(min, max);
            let content = i64_to_string(n);
            assert(name@.len() != "demo.echo"@.len());
            ToolResult { tool_call_id: owned(call_id), name: owned(name), content, is_error: false }
        } else {
            self.unknown(call_id, name)
        }
    }
}

} // verus!
