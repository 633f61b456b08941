//! The command builder: turns a model and its validated switch/value pairs
//! into the shell invocation string for the model's local binary.
//!
//! The local executable's file name is the last path segment of the model's
//! download location — the interactive one or the server-mode one, whichever
//! mode was asked for.  Each validated pair contributes one fragment: the
//! `temp` switch is numeric and goes unquoted as ` --temp {value}`, every
//! other switch goes as ` -{switch} "{value}"`.  A model named `Llava` gets
//! ` --silent-prompt 2>/dev/null` appended to every invocation.

use vstd::prelude::*;
use vstd::string::*;

use crate::catalog::Model;
use crate::catalog::ModelView;

verus! {

/// Which of a model's two binaries is meant: the interactive one or the
/// long-running server one.
#[derive(Debug, Clone, Copy, PartialEq, Eq)]
pub enum ModelType {
    CLI,
    Server,
}

/// The download location a mode selects: the interactive binary's for
/// `CLI`, the server-mode binary's for `Server`.
pub open spec fn spec_url_for(m: ModelView, mode: ModelType) -> Seq<char> {
    match mode {
        ModelType::CLI => m.url,
        ModelType::Server => m.server_url,
    }
}

/// The last path segment of `url`: the part after the final `/`, or all of
/// `url` when it has no `/`.
pub open spec fn spec_file_name(url: Seq<char>) -> Seq<char>
    decreases url.len(),
{
    if url.len() == 0 {
        Seq::<char>::empty()
    } else if url[url.len() - 1] == '/' {
        Seq::<char>::empty()
    } else {
        spec_file_name(url.drop_last()).push(url[url.len() - 1])
    }
}

/// The invocation fragment one validated (switch, value) pair contributes.
pub open spec fn spec_param_fragment(switch: Seq<char>, value: Seq<char>) -> Seq<char> {
    if switch == "temp"@ {
        " --temp "@ + value
    } else {
        " -"@ + switch + " \""@ + value + "\""@
    }
}

/// The concatenation of the fragments of a sequence of pairs, in order.
pub open spec fn spec_params_string(pairs: Seq<(Seq<char>, Seq<char>)>) -> Seq<char>
    decreases pairs.len(),
{
    if pairs.len() == 0 {
        Seq::<char>::empty()
    } else {
        spec_params_string(pairs.drop_last()) + spec_param_fragment(
            pairs.last().0,
            pairs.last().1,
        )
    }
}

/// The fixed tail every invocation of a model named `Llava` carries.
pub open spec fn spec_llava_suffix(name: Seq<char>) -> Seq<char> {
    if name == "Llava"@ {
        " --silent-prompt 2>/dev/null"@
    } else {
        Seq::<char>::empty()
    }
}

/// The whole invocation string for a model, mode and validated pairs.
pub open spec fn spec_command(
    m: ModelView,
    pairs: Seq<(Seq<char>, Seq<char>)>,
    mode: ModelType,
) -> Seq<char> {
    "./"@ + spec_file_name(spec_url_for(m, mode)) + spec_params_string(pairs) + spec_llava_suffix(
        m.name,
    )
}

/// The views of a vector of (switch, value) pairs.
pub open spec fn spec_pair_views(pairs: Seq<(String, String)>) -> Seq<(Seq<char>, Seq<char>)> {
    pairs.map_values(|p: (String, String)| (p.0@, p.1@))
}

proof fn lemma_file_name_no_slash(s: Seq<char>)
    requires
        forall|k: int| 0 <= k < s.len() ==> s[k] != '/',
    ensures
        spec_file_name(s) == s,
    decreases s.len(),
{
    if s.len() > 0 {
        lemma_file_name_no_slash(s.drop_last());
        assert(spec_file_name(s.drop_last()).push(s[s.len() - 1]) =~= s);
    } else {
        assert(spec_file_name(s) =~= s);
    }
}

proof fn lemma_file_name_after_last_slash(s: Seq<char>, k: int)
    requires
        0 <= k < s.len(),
        s[k] == '/',
        forall|m: int| k < m < s.len() ==> s[m] != '/',
    ensures
        spec_file_name(s) == s.subrange(k + 1, s.len() as int),
    decreases s.len(),
{
    if k == s.len() - 1 {
        assert(spec_file_name(s) =~= s.subrange(k + 1, s.len() as int));
    } else {
        lemma_file_name_after_last_slash(s.drop_last(), k);
        assert(spec_file_name(s.drop_last()).push(s[s.len() - 1]) =~= s.subrange(
            k + 1,
            s.len() as int,
        ));
    }
}

/// The file name of the binary a URL points at: the segment after the last
/// `/`, or the whole URL when it has no `/`.
pub fn file_name_of(url: &String) -> (r: String)
    ensures
        r@ == spec_file_name(url@),
{
    let s = url.as_str();
    let n = s.unicode_len();
    let mut start: usize = 0;
    let mut i: usize = 0;
    while i < n
        invariant
            n == s@.len(),
            0 <= start <= i <= n,
            forall|m: int| start <= m < i ==> s@[m] != '/',
            start > 0 ==> s@[start - 1] == '/',
        decreases n - i,
    {
        if s.get_char(i) == '/' {
            start = i + 1;
        }
        i += 1;
    }
    let tail = s.substring_char(start, n);
    proof {
        if start == 0 {
            lemma_file_name_no_slash(s@);
            assert(tail@ =~= s@);
        } else {
            lemma_file_name_after_last_slash(s@, start - 1);
        }
    }
    tail.to_owned()
}

/// Builds the invocation string for a model, its validated pairs and a mode.
pub fn build_command(model: &Model, pairs: &Vec<(String, String)>, mode: ModelType) -> (r: String)
    ensures
        r@ == spec_command(model@, spec_pair_views(pairs@), mode),
{
    let url = match mode {
        ModelType::CLI => &model.url,
        ModelType::Server => &model.server_url,
    };
    let fname = file_name_of(url);
    let mut cmd = String::new();
    cmd.append("./");
    cmd.append(fname.as_str());
    let ghost pv = spec_pair_views(pairs@);
    let mut i: usize = 0;
    while i < pairs.len()
        invariant
            pv == spec_pair_views(pairs@),
            i <= pairs.len() == pv.len(),
            cmd@ == "./"@ + spec_file_name(spec_url_for(model@, mode)) + spec_params_string(
                pv.take(i as int),
            ),
        decreases pairs.len() - i,
    {
        let switch = &pairs[i].0;
        let value = &pairs[i].1;
        if *switch == String::from_str("temp") {
            cmd.append(" --temp ");
            cmd.append(value.as_str());
        } else {
            cmd.append(" -");
            cmd.append(switch.as_str());
            cmd.append(" \"");
            cmd.append(value.as_str());
            cmd.append("\"");
        }
        i += 1;
        proof {
            assert(pv.take(i as int).drop_last() =~= pv.take(i - 1));
            assert(cmd@ =~= "./"@ + spec_file_name(spec_url_for(model@, mode))
                + spec_params_string(pv.take(i as int)));
        }
    }
    if model.name == String::from_str("Llava") {
        cmd.append(" --silent-prompt 2>/dev/null");
    }
    proof {
        assert(pv.take(pairs@.len() as int) =~= pv);
        assert(cmd@ =~= spec_command(model@, pv, mode));
    }
    cmd
}

/// The tail law for the `Llava` special case: whatever the pairs and the
/// mode, the invocation built for a model named `Llava` ends in the fixed
/// ` --silent-prompt 2>/dev/null` tail.
pub proof fn lemma_llava_always_silenced(
    m: ModelView,
    pairs: Seq<(Seq<char>, Seq<char>)>,
    mode: ModelType,
)
    requires
        m.name == "Llava"@,
    ensures
        spec_command(m, pairs, mode).len() >= (" --silent-prompt 2>/dev/null")@.len(),
        spec_command(m, pairs, mode).subrange(
            spec_command(m, pairs, mode).len() - (" --silent-prompt 2>/dev/null")@.len(),
            spec_command(m, pairs, mode).len() as int,
        ) == (" --silent-prompt 2>/dev/null")@,
{
    let head = "./"@ + spec_file_name(spec_url_for(m, mode)) + spec_params_string(pairs);
    let tail = (" --silent-prompt 2>/dev/null")@;
    assert(spec_command(m, pairs, mode) == head + tail);
    assert((head + tail).subrange(head.len() as int, (head + tail).len() as int) =~= tail);
}

} // verus!
