//! The model-invocation pipeline: group the trailing arguments into pairs,
//! validate them, decide whether the model's artifact must be fetched, and
//! build every shell command the invocation needs.
//!
//! The pipeline only computes; the surrounding binary runs the commands it
//! hands back.  Whether a model is downloaded is decided by cache-catalog
//! membership alone, never by looking at the file system: the cache catalog
//! is the source of truth for what has been downloaded.

use vstd::prelude::*;
use vstd::string::*;

use crate::catalog::Model;
use crate::catalog::Models;
use crate::catalog::ModelView;
use crate::catalog::spec_contains_name;
use crate::command::ModelType;
use crate::command::build_command;
use crate::command::spec_command;
use crate::command::spec_file_name;
use crate::command::spec_pair_views;
use crate::command::spec_url_for;
use crate::validate::LaunchError;
use crate::validate::SwitchFault;
use crate::validate::pair_args;
use crate::validate::spec_validate;
use crate::validate::validate_pairs;

verus! {

/// The views of a sequence of strings.
pub open spec fn spec_string_views(xs: Seq<String>) -> Seq<Seq<char>> {
    xs.map_values(|s: String| s@)
}

/// The pairs a sequence of trailing arguments groups into, two by two.
pub open spec fn spec_pairs_of(args: Seq<Seq<char>>) -> Seq<(Seq<char>, Seq<char>)> {
    Seq::new(args.len() / 2, |k: int| (args[2 * k], args[2 * k + 1]))
}

/// The shell command that fetches a URL with the external download tool.
pub open spec fn spec_download_command(url: Seq<char>) -> Seq<char> {
    "wget "@ + url
}

/// The shell command that marks the fetched artifact executable.
pub open spec fn spec_chmod_command(url: Seq<char>) -> Seq<char> {
    "chmod +x "@ + spec_file_name(url)
}

/// The two shell commands a fetch runs, in order: download, then mark the
/// artifact executable.  After running them the caller records the model in
/// the cache catalog and persists it.
pub struct FetchPlan {
    pub download_cmd: String,
    pub chmod_cmd: String,
}

/// Everything a validated invocation needs: the fetch commands when the
/// model is not yet cached, and the invocation string for its binary.
pub struct InvocationPlan {
    pub fetch: Option<FetchPlan>,
    pub command: String,
}

/// Builds the download and chmod commands for the download location the
/// given mode selects.
pub fn fetch_commands(model: &Model, mode: ModelType) -> (r: FetchPlan)
    ensures
        r.download_cmd@ == spec_download_command(spec_url_for(model@, mode)),
        r.chmod_cmd@ == spec_chmod_command(spec_url_for(model@, mode)),
{
    let url = match mode {
        ModelType::CLI => &model.url,
        ModelType::Server => &model.server_url,
    };
    let mut download_cmd = String::new();
    download_cmd.append("wget ");
    download_cmd.append(url.as_str());
    let mut chmod_cmd = String::new();
    chmod_cmd.append("chmod +x ");
    let fname = crate::command::file_name_of(url);
    chmod_cmd.append(fname.as_str());
    FetchPlan { download_cmd, chmod_cmd }
}

/// The whole decision of one `run` or `serve` invocation: group the
/// trailing arguments into pairs, validate them against the model's
/// whitelist, plan a fetch exactly when the model's name is absent from the
/// cached catalog, and build the invocation string.
pub fn plan_invocation(
    model: &Model,
    cached: &Models,
    trailing: &Vec<String>,
    mode: ModelType,
) -> (r: Result<InvocationPlan, LaunchError>)
    ensures
        r is Ok <==> (trailing@.len() % 2 == 0 && spec_validate(
            model@,
            spec_pairs_of(spec_string_views(trailing@)),
        ) is None),
        r matches Ok(plan) ==> {
            &&& plan.fetch is Some <==> !spec_contains_name(cached@, model@.name)
            &&& plan.fetch matches Some(f) ==> f.download_cmd@ == spec_download_command(
                spec_url_for(model@, mode),
            ) && f.chmod_cmd@ == spec_chmod_command(spec_url_for(model@, mode))
            &&& plan.command@ == spec_command(
                model@,
                spec_pairs_of(spec_string_views(trailing@)),
                mode,
            )
        },
        r matches Err(e) ==> match e {
            LaunchError::MalformedArguments => trailing@.len() % 2 == 1,
            LaunchError::UnknownSwitch(s) => trailing@.len() % 2 == 0 && spec_validate(
                model@,
                spec_pairs_of(spec_string_views(trailing@)),
            ) == Some(SwitchFault::Unknown(s@)),
            LaunchError::EmptyValue(s) => trailing@.len() % 2 == 0 && spec_validate(
                model@,
                spec_pairs_of(spec_string_views(trailing@)),
            ) == Some(SwitchFault::Empty(s@)),
            _ => false,
        },
{
    let pairs = match pair_args(trailing) {
        Ok(pairs) => pairs,
        Err(e) => {
            return Err(e);
        },
    };
    proof {
        assert(spec_pair_views(pairs@) =~= spec_pairs_of(spec_string_views(trailing@)));
    }
    match validate_pairs(model, &pairs) {
        Ok(()) => {},
        Err(e) => {
            return Err(e);
        },
    }
    let fetch = if !cached.contains_name(&model.name) {
        Some(fetch_commands(model, mode))
    } else {
        None
    };
    let command = build_command(model, &pairs, mode);
    Ok(InvocationPlan { fetch, command })
}

/// The fetch-idempotence law: once a fetched model is recorded in the cache
/// catalog, its name is present there, so planning any later invocation of
/// that model against the updated cache yields no fetch.
pub proof fn lemma_no_refetch_after_record(cached: Seq<ModelView>, m: ModelView)
    ensures
        spec_contains_name(cached.push(m), m.name),
{
    assert(cached.push(m)[cached.len() as int].name == m.name);
}

} // verus!
