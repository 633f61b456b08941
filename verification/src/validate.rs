//! The parameter validator and the error model.
//!
//! User-supplied trailing arguments are first grouped into (switch, value)
//! pairs — an odd count is rejected rather than silently truncated — and
//! each pair is then held against the model's switch whitelist: a switch
//! outside the whitelist or an empty value aborts the invocation.
//! Validation is short-circuiting: the first offending pair decides the
//! error, and the switch check comes before the value check.

use vstd::prelude::*;
use vstd::string::*;

use crate::catalog::Model;
use crate::catalog::ModelView;
use crate::catalog::spec_has_switch;

verus! {

/// Every way an invocation of the launcher can fail, one variant per kind.
#[derive(Debug, PartialEq)]
pub enum LaunchError {
    /// The primary catalog's backing file is absent (fatal).
    ConfigMissing,
    /// The primary catalog's backing file does not parse (fatal).
    ConfigMalformed,
    /// A supplied switch is not in the model's whitelist; carries the switch.
    UnknownSwitch(String),
    /// A supplied value is the empty string; carries its switch.
    EmptyValue(String),
    /// An odd number of trailing arguments: the last group is incomplete.
    MalformedArguments,
    /// The download subprocess failed to produce the artifact.
    DownloadFailed,
    /// The model's captured output is not valid text.
    InvalidOutputEncoding,
    /// The shell itself could not be launched (fatal).
    SpawnFailed,
}

/// The distinct process exit code of each failure kind.
pub open spec fn spec_exit_code(e: &LaunchError) -> u8 {
    match e {
        LaunchError::ConfigMissing => 2,
        LaunchError::ConfigMalformed => 3,
        LaunchError::UnknownSwitch(_) => 4,
        LaunchError::EmptyValue(_) => 5,
        LaunchError::MalformedArguments => 6,
        LaunchError::DownloadFailed => 7,
        LaunchError::InvalidOutputEncoding => 8,
        LaunchError::SpawnFailed => 9,
    }
}

/// The user-facing message of each failure kind.  The messages that guide
/// the user to the `params` listing name the offending switch and the model.
pub open spec fn spec_message(e: &LaunchError, model_name: Seq<char>) -> Seq<char> {
    match e {
        LaunchError::ConfigMissing => "configuration not found"@,
        LaunchError::ConfigMalformed => "configuration is malformed"@,
        LaunchError::UnknownSwitch(s) => s@
            + " invalid model parameter, to view valid parameters use ./lai "@ + model_name
            + " params"@,
        LaunchError::EmptyValue(s) => s@
            + " invalid model parameter value, to view valid parameters use ./lai "@ + model_name
            + " params"@,
        LaunchError::MalformedArguments => "arguments must come in switch value pairs"@,
        LaunchError::DownloadFailed => "download failed"@,
        LaunchError::InvalidOutputEncoding => "model output is not valid text"@,
        LaunchError::SpawnFailed => "failed to execute process"@,
    }
}

impl LaunchError {
    /// The process exit code for this failure; each kind gets its own,
    /// and none gets 0, which is reserved for success.
    pub fn exit_code(&self) -> (r: u8)
        ensures
            r == spec_exit_code(self),
            r != 0,
    {
        match self {
            LaunchError::ConfigMissing => 2,
            LaunchError::ConfigMalformed => 3,
            LaunchError::UnknownSwitch(_) => 4,
            LaunchError::EmptyValue(_) => 5,
            LaunchError::MalformedArguments => 6,
            LaunchError::DownloadFailed => 7,
            LaunchError::InvalidOutputEncoding => 8,
            LaunchError::SpawnFailed => 9,
        }
    }

    /// The message shown to the user for this failure, given the name of the
    /// model the failed invocation addressed.
    pub fn message(&self, model_name: &String) -> (r: String)
        ensures
            r@ == spec_message(self, model_name@),
    {
        let mut s = String::new();
        match self {
            LaunchError::ConfigMissing => {
                s.append("configuration not found");
            },
            LaunchError::ConfigMalformed => {
                s.append("configuration is malformed");
            },
            LaunchError::UnknownSwitch(sw) => {
                s.append(sw.as_str());
                s.append(" invalid model parameter, to view valid parameters use ./lai ");
                s.append(model_name.as_str());
                s.append(" params");
            },
            LaunchError::EmptyValue(sw) => {
                s.append(sw.as_str());
                s.append(" invalid model parameter value, to view valid parameters use ./lai ");
                s.append(model_name.as_str());
                s.append(" params");
            },
            LaunchError::MalformedArguments => {
                s.append("arguments must come in switch value pairs");
            },
            LaunchError::DownloadFailed => {
                s.append("download failed");
            },
            LaunchError::InvalidOutputEncoding => {
                s.append("model output is not valid text");
            },
            LaunchError::SpawnFailed => {
                s.append("failed to execute process");
            },
        }
        s
    }
}

/// The faults a single (switch, value) pair can show, with the switch.
pub enum SwitchFault {
    /// The switch is not in the model's whitelist.
    Unknown(Seq<char>),
    /// The value is the empty string.
    Empty(Seq<char>),
}

/// Whether one (switch, value) pair passes validation against a model:
/// the switch is whitelisted and the value is not empty.
pub open spec fn spec_pair_ok(m: ModelView, p: (Seq<char>, Seq<char>)) -> bool {
    spec_has_switch(m, p.0) && p.1.len() > 0
}

/// The outcome of validating a sequence of pairs against a model: `None`
/// when every pair passes, otherwise the fault of the first offending pair,
/// the switch check coming before the value check.
pub open spec fn spec_validate(m: ModelView, pairs: Seq<(Seq<char>, Seq<char>)>) -> Option<
    SwitchFault,
>
    decreases pairs.len(),
{
    if pairs.len() == 0 {
        None
    } else if !spec_has_switch(m, pairs[0].0) {
        Some(SwitchFault::Unknown(pairs[0].0))
    } else if pairs[0].1.len() == 0 {
        Some(SwitchFault::Empty(pairs[0].0))
    } else {
        spec_validate(m, pairs.drop_first())
    }
}

impl Model {
    /// Whether this model's whitelist holds the given switch.
    pub fn has_switch(&self, switch: &String) -> (r: bool)
        ensures
            r == spec_has_switch(self@, switch@),
    {
        let mut i: usize = 0;
        while i < self.parameters.len()
            invariant
                i <= self.parameters.len(),
                forall|k: int| 0 <= k < i ==> self@.parameters[k].switch != switch@,
            decreases self.parameters.len() - i,
        {
            if self.parameters[i].switch == *switch {
                proof {
                    assert(self@.parameters[i as int].switch == switch@);
                }
                return true;
            }
            i += 1;
        }
        false
    }
}

/// Groups the trailing command-line arguments into (switch, value) pairs.
/// An odd count means the last group is incomplete, a malformed invocation.
pub fn pair_args(args: &Vec<String>) -> (r: Result<Vec<(String, String)>, LaunchError>)
    ensures
        r is Ok <==> args@.len() % 2 == 0,
        r matches Ok(pairs) ==> {
            &&& crate::command::spec_pair_views(pairs@).len() == args@.len() / 2
            &&& forall|k: int|
                0 <= k < pairs@.len() ==> pairs@[k].0@ == args@[2 * k]@ && pairs@[k].1@ == args@[2
                    * k + 1]@
        },
        r matches Err(e) ==> e == LaunchError::MalformedArguments,
{
    if args.len() % 2 != 0 {
        return Err(LaunchError::MalformedArguments);
    }
    let mut pairs: Vec<(String, String)> = Vec::new();
    let mut i: usize = 0;
    while i + 1 < args.len()
        invariant
            args@.len() % 2 == 0,
            i % 2 == 0,
            i <= args@.len(),
            pairs@.len() == i / 2,
            forall|k: int|
                0 <= k < pairs@.len() ==> pairs@[k].0@ == args@[2 * k]@ && pairs@[k].1@ == args@[2
                    * k + 1]@,
        decreases args.len() - i,
    {
        pairs.push((args[i].clone(), args[i + 1].clone()));
        i += 2;
    }
    Ok(pairs)
}

/// Validates the pairs against the model's whitelist, short-circuiting on
/// the first offending pair.
pub fn validate_pairs(model: &Model, pairs: &Vec<(String, String)>) -> (r: Result<
    (),
    LaunchError,
>)
    ensures
        r is Ok <==> spec_validate(model@, crate::command::spec_pair_views(pairs@)) is None,
        r matches Err(e) ==> match e {
            LaunchError::UnknownSwitch(s) => spec_validate(
                model@,
                crate::command::spec_pair_views(pairs@),
            ) == Some(SwitchFault::Unknown(s@)),
            LaunchError::EmptyValue(s) => spec_validate(
                model@,
                crate::command::spec_pair_views(pairs@),
            ) == Some(SwitchFault::Empty(s@)),
            _ => false,
        },
{
    let ghost pv = crate::command::spec_pair_views(pairs@);
    proof {
        assert(pv.skip(0) =~= pv);
    }
    let mut i: usize = 0;
    while i < pairs.len()
        invariant
            pv == crate::command::spec_pair_views(pairs@),
            i <= pairs.len() == pv.len(),
            spec_validate(model@, pv) == spec_validate(model@, pv.skip(i as int)),
        decreases pairs.len() - i,
    {
        let switch = &pairs[i].0;
        let value = &pairs[i].1;
        proof {
            assert(pv.skip(i as int)[0] == pv[i as int]);
        }
        if !model.has_switch(switch) {
            return Err(LaunchError::UnknownSwitch(switch.clone()));
        }
        if value.as_str().is_empty() {
            return Err(LaunchError::EmptyValue(switch.clone()));
        }
        proof {
            assert(pv.skip(i as int).drop_first() =~= pv.skip(i + 1));
        }
        i += 1;
    }
    proof {
        assert(pv.skip(pairs.len() as int) =~= Seq::<(Seq<char>, Seq<char>)>::empty());
    }
    Ok(())
}

/// The acceptance law: validation passes exactly when every pair has a
/// whitelisted switch and a non-empty value.
pub proof fn lemma_validate_accepts_iff_all_ok(m: ModelView, pairs: Seq<(Seq<char>, Seq<char>)>)
    ensures
        spec_validate(m, pairs) is None <==> (forall|k: int|
            0 <= k < pairs.len() ==> spec_pair_ok(m, pairs[k])),
    decreases pairs.len(),
{
    if pairs.len() > 0 {
        lemma_validate_accepts_iff_all_ok(m, pairs.drop_first());
        let rest = pairs.drop_first();
        assert(forall|k: int| 0 < k < pairs.len() ==> pairs[k] == #[trigger] rest[k - 1]);
        if !spec_pair_ok(m, pairs[0]) {
            assert(!(forall|k: int| 0 <= k < pairs.len() ==> spec_pair_ok(m, pairs[k])));
        } else if spec_validate(m, rest) is None {
            assert forall|k: int| 0 <= k < pairs.len() implies spec_pair_ok(m, pairs[k]) by {
                if k > 0 {
                    assert(pairs[k] == rest[k - 1]);
                }
            }
        } else {
            let j = choose|j: int| 0 <= j < rest.len() && !spec_pair_ok(m, rest[j]);
            assert(!spec_pair_ok(m, pairs[j + 1]));
        }
    }
}

/// The empty-value law: a pair made of any switch a model declares and the
/// empty value is rejected, with the fault naming that switch.
pub proof fn lemma_declared_switch_empty_value_rejected(m: ModelView, i: int)
    requires
        0 <= i < m.parameters.len(),
    ensures
        spec_validate(m, seq![(m.parameters[i].switch, Seq::<char>::empty())]) == Some(
            SwitchFault::Empty(m.parameters[i].switch),
        ),
{
    let p = (m.parameters[i].switch, Seq::<char>::empty());
    assert(spec_has_switch(m, p.0));
    assert(seq![p][0] == p);
}

/// The unknown-switch law: a pair whose switch is outside the model's
/// whitelist is rejected whatever its value, with the fault naming the
/// switch.
pub proof fn lemma_unknown_switch_rejected(m: ModelView, s: Seq<char>, v: Seq<char>)
    requires
        !spec_has_switch(m, s),
    ensures
        spec_validate(m, seq![(s, v)]) == Some(SwitchFault::Unknown(s)),
{
    assert(seq![(s, v)][0] == (s, v));
}

} // verus!
