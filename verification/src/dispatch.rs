//! The dispatcher: classifies a full argument vector into the action the
//! launcher takes.
//!
//! The first element of the vector is the binary's own name.  A first
//! positional argument that names an available model routes to that model's
//! subcommands (`params`, `run`, `serve`); otherwise `help`, `test` and
//! `list` are recognized, and anything else is a usage error.  Every route
//! is terminal: the surrounding binary performs it and exits.

use vstd::prelude::*;
use vstd::string::*;

use crate::catalog::ModelView;
use crate::catalog::Models;
use crate::catalog::spec_contains_name;
use crate::command::ModelType;
use crate::pipeline::spec_string_views;

verus! {

/// Mathematical image of a [`Route`].
pub enum RouteView {
    Usage,
    Help,
    Test,
    List { cached: bool },
    Params { name: Seq<char> },
    Invoke { name: Seq<char>, mode: ModelType, trailing: Seq<Seq<char>> },
    MissingModelCommand { name: Seq<char> },
    BadModelCommand { name: Seq<char> },
    Unknown,
}

/// The action one argument vector asks for.
#[derive(Debug)]
pub enum Route {
    /// No arguments at all: print the usage hint.
    Usage,
    /// `help`: print the help text.
    Help,
    /// `test`: run the fixed smoke test.
    Test,
    /// `list`: list the available catalog, or the cached one with a further
    /// argument.
    List { cached: bool },
    /// `{model} params`: print the model's parameter table.
    Params { name: String },
    /// `{model} run ...` or `{model} serve ...`: the invocation pipeline,
    /// with the trailing arguments still to be paired and validated.
    Invoke { name: String, mode: ModelType, trailing: Vec<String> },
    /// A model name with no subcommand after it.
    MissingModelCommand { name: String },
    /// A model name with a subcommand other than `params`, `run`, `serve`.
    BadModelCommand { name: String },
    /// A first argument that is neither a model name nor a known command.
    Unknown,
}

impl View for Route {
    type V = RouteView;

    open spec fn view(&self) -> RouteView {
        match self {
            Route::Usage => RouteView::Usage,
            Route::Help => RouteView::Help,
            Route::Test => RouteView::Test,
            Route::List { cached } => RouteView::List { cached: *cached },
            Route::Params { name } => RouteView::Params { name: name@ },
            Route::Invoke { name, mode, trailing } => RouteView::Invoke {
                name: name@,
                mode: *mode,
                trailing: spec_string_views(trailing@),
            },
            Route::MissingModelCommand { name } => RouteView::MissingModelCommand { name: name@ },
            Route::BadModelCommand { name } => RouteView::BadModelCommand { name: name@ },
            Route::Unknown => RouteView::Unknown,
        }
    }
}

/// The route one argument vector takes, given the available catalog.  A
/// first argument that names an available model takes precedence over the
/// built-in commands.
pub open spec fn spec_route(args: Seq<Seq<char>>, catalog: Seq<ModelView>) -> RouteView {
    if args.len() <= 1 {
        RouteView::Usage
    } else if spec_contains_name(catalog, args[1]) {
        if args.len() <= 2 {
            RouteView::MissingModelCommand { name: args[1] }
        } else if args[2] == "params"@ {
            RouteView::Params { name: args[1] }
        } else if args[2] == "run"@ {
            RouteView::Invoke { name: args[1], mode: ModelType::CLI, trailing: args.skip(3) }
        } else if args[2] == "serve"@ {
            RouteView::Invoke { name: args[1], mode: ModelType::Server, trailing: args.skip(3) }
        } else {
            RouteView::BadModelCommand { name: args[1] }
        }
    } else if args[1] == "help"@ {
        RouteView::Help
    } else if args[1] == "test"@ {
        RouteView::Test
    } else if args[1] == "list"@ {
        RouteView::List { cached: args.len() > 2 }
    } else {
        RouteView::Unknown
    }
}

/// Classifies the full argument vector (binary name first) against the
/// available catalog.
pub fn route(args: &Vec<String>, available: &Models) -> (r: Route)
    ensures
        r@ == spec_route(spec_string_views(args@), available@),
{
    let ghost av = spec_string_views(args@);
    if args.len() <= 1 {
        return Route::Usage;
    }
    let first = &args[1];
    if available.contains_name(first) {
        if args.len() <= 2 {
            return Route::MissingModelCommand { name: first.clone() };
        }
        let sub = &args[2];
        if *sub == String::from_str("params") {
            Route::Params { name: first.clone() }
        } else if *sub == String::from_str("run") {
            let trailing = tail_from(args, 3);
            Route::Invoke { name: first.clone(), mode: ModelType::CLI, trailing }
        } else if *sub == String::from_str("serve") {
            let trailing = tail_from(args, 3);
            Route::Invoke { name: first.clone(), mode: ModelType::Server, trailing }
        } else {
            Route::BadModelCommand { name: first.clone() }
        }
    } else if *first == String::from_str("help") {
        Route::Help
    } else if *first == String::from_str("test") {
        Route::Test
    } else if *first == String::from_str("list") {
        Route::List { cached: args.len() > 2 }
    } else {
        Route::Unknown
    }
}

/// Copies the arguments from position `from` on, in order.
fn tail_from(args: &Vec<String>, from: usize) -> (r: Vec<String>)
    requires
        from <= args@.len(),
    ensures
        spec_string_views(r@) == spec_string_views(args@).skip(from as int),
{
    let mut r: Vec<String> = Vec::new();
    let mut i: usize = from;
    while i < args.len()
        invariant
            from <= i <= args@.len(),
            r@.len() == i - from,
            forall|k: int| 0 <= k < r@.len() ==> r@[k]@ == args@[from + k]@,
        decreases args.len() - i,
    {
        r.push(args[i].clone());
        i += 1;
    }
    proof {
        assert(spec_string_views(r@) =~= spec_string_views(args@).skip(from as int));
    }
    r
}

} // verus!
