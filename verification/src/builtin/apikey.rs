use vstd::prelude::*;
use crate::builtin::args_of;
use crate::command::{ArgSpec, CommandSpec, ValueType};
use crate::text::{lit, lowercase, push_str, to_lowercase, to_uppercase, uppercase, views};

verus! {

broadcast use vstd::string::group_string_axioms;

/// The declaration of `/apikey`.
pub fn spec() -> (r: CommandSpec)
    ensures
        r.name@ == "apikey"@,
        r.category@ == "setup"@,
        r.subcommands@.len() == 0,
        args_of(r) == seq![
            ("provider"@, true, ValueType::String, false),
            ("key"@, true, ValueType::String, false),
        ],
{
    let r = CommandSpec::new("apikey", "/apikey <provider> <key>", "Set a provider API key")
        .category("setup")
        .arg(ArgSpec::required("provider", "Provider id"))
        .arg(ArgSpec::required("key", "API key value"))
        .example("/apikey openrouter sk-or-v1-...");
    assert(args_of(r) =~= seq![
        ("provider"@, true, ValueType::String, false),
        ("key"@, true, ValueType::String, false),
    ]);
    r
}

/// What `/apikey` has to do.
pub enum ApikeyRequest {
    /// Answer with this text.
    Reply(String),
    /// Store `value` as the root secret `secret_key`, then confirm for `provider`.
    Store { provider: String, secret_key: String, value: String },
}

/// The handler of `/apikey`.
pub struct ApikeyCommand;

impl ApikeyCommand {
    /// What `/apikey <provider> <key>` does: the provider is lower-cased and
    /// its key goes into the root secret `PROVIDER_<PROVIDER>_API_KEY`.
    pub fn plan(&self, args: &Vec<String>) -> (r: ApikeyRequest)
        ensures
            args@.len() < 2 ==> (r matches ApikeyRequest::Reply(t) && t@
                == "Usage: /apikey <provider> <key> (e.g., /apikey openrouter sk-...)"@),
            args@.len() >= 2 ==> (r matches ApikeyRequest::Store { provider, secret_key, value }
                && provider@ == lowercase(args@[0]@) && secret_key@ == "PROVIDER_"@ + uppercase(
                lowercase(args@[0]@),
            ) + "_API_KEY"@ && value@ == args@[1]@),
    {
        if args.len() < 2 {
            return ApikeyRequest::Reply(
                lit("Usage: /apikey <provider> <key> (e.g., /apikey openrouter sk-...)"),
            );
        }
        let provider = to_lowercase(args[0].as_str());
        let mut secret_key = lit("PROVIDER_");
        let up = to_uppercase(provider.as_str());
        push_str(&mut secret_key, up.as_str());
        push_str(&mut secret_key, "_API_KEY");
        ApikeyRequest::Store { provider, secret_key, value: args[1].clone() }
    }

    /// The reply after storing the key.
    pub fn stored_reply(&self, provider: &str) -> (r: String)
        ensures
            r@ == "Successfully set API key for provider: "@ + provider@,
    {
        let mut t = lit("Successfully set API key for provider: ");
        push_str(&mut t, provider);
        t
    }
}

} // verus!
