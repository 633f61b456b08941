//! The catalog data model: parameters, models, and catalogs of models.
//!
//! A catalog is an ordered sequence of models; a model is identified by its
//! name, which is unique within a well-formed catalog and serves as the
//! lookup key.  Each model declares the exhaustive whitelist of switches it
//! accepts as a sequence of parameters.

use vstd::prelude::*;

verus! {

/// Mathematical image of a [`Parameter`]: both fields as character sequences.
pub struct ParameterView {
    pub switch: Seq<char>,
    pub explanation: Seq<char>,
}

/// Mathematical image of a [`Model`]: every field as a character sequence,
/// the whitelist as a sequence of parameter views.
pub struct ModelView {
    pub name: Seq<char>,
    pub version: Seq<char>,
    pub url: Seq<char>,
    pub server_url: Seq<char>,
    pub parameters: Seq<ParameterView>,
}

/// One switch a model accepts, with a human-readable explanation.
/// The switch is stored without its leading dash.
#[derive(Debug, PartialEq)]
pub struct Parameter {
    pub switch: String,
    pub explanation: String,
}

/// A named, versioned reference to a downloadable model binary, with one
/// download location for the interactive binary and one for the server-mode
/// binary, and the whitelist of switches the binary accepts.
#[derive(Debug, PartialEq)]
pub struct Model {
    pub name: String,
    pub version: String,
    pub url: String,
    pub server_url: String,
    pub parameters: Vec<Parameter>,
}

/// A catalog: an ordered sequence of models.  The same structure backs both
/// the read-only "available" catalog and the mutable "cached" catalog.
#[derive(Debug, PartialEq)]
pub struct Models {
    pub available: Vec<Model>,
}

impl View for Parameter {
    type V = ParameterView;

    open spec fn view(&self) -> ParameterView {
        (ParameterView { switch: self.switch@, explanation: self.explanation@ })
    }
}

impl View for Model {
    type V = ModelView;

    open spec fn view(&self) -> ModelView {
        (ModelView {
            name: self.name@,
            version: self.version@,
            url: self.url@,
            server_url: self.server_url@,
            parameters: self.parameters@.map_values(|p: Parameter| p@),
        })
    }
}

impl View for Models {
    type V = Seq<ModelView>;

    open spec fn view(&self) -> Seq<ModelView> {
        self.available@.map_values(|m: Model| m@)
    }
}

/// The names of a catalog's models, in catalog order.
pub open spec fn spec_names(c: Seq<ModelView>) -> Seq<Seq<char>> {
    c.map_values(|m: ModelView| m.name)
}

/// Whether a catalog holds a model of the given name.
pub open spec fn spec_contains_name(c: Seq<ModelView>, name: Seq<char>) -> bool {
    exists|i: int| 0 <= i < c.len() && c[i].name == name
}

/// The uniqueness invariant on a catalog: no model name appears twice.
pub open spec fn names_unique(c: Seq<ModelView>) -> bool {
    forall|i: int, j: int| 0 <= i < j < c.len() ==> c[i].name != c[j].name
}

/// The uniqueness invariant on a model's whitelist: no switch appears twice.
pub open spec fn switches_unique(m: ModelView) -> bool {
    forall|i: int, j: int|
        0 <= i < j < m.parameters.len() ==> m.parameters[i].switch != m.parameters[j].switch
}

/// Whether a model's whitelist holds the given switch.
pub open spec fn spec_has_switch(m: ModelView, switch: Seq<char>) -> bool {
    exists|i: int| 0 <= i < m.parameters.len() && m.parameters[i].switch == switch
}

impl Clone for Parameter {
    fn clone(&self) -> (r: Self)
        ensures
            r == *self,
    {
        Parameter { switch: self.switch.clone(), explanation: self.explanation.clone() }
    }
}

impl Clone for Model {
    fn clone(&self) -> (r: Self)
        ensures
            r@ == self@,
    {
        let parameters = clone_parameters(&self.parameters);
        Model {
            name: self.name.clone(),
            version: self.version.clone(),
            url: self.url.clone(),
            server_url: self.server_url.clone(),
            parameters,
        }
    }
}

impl Clone for Models {
    fn clone(&self) -> (r: Self)
        ensures
            r@ == self@,
    {
        let mut available: Vec<Model> = Vec::new();
        let mut i: usize = 0;
        while i < self.available.len()
            invariant
                i <= self.available.len(),
                available@.len() == i,
                forall|k: int| 0 <= k < i ==> available@[k]@ == self@[k],
            decreases self.available.len() - i,
        {
            available.push(self.available[i].clone());
            i += 1;
        }
        let r = Models { available };
        proof {
            assert(r@ =~= self@);
        }
        r
    }
}

fn clone_parameters(ps: &Vec<Parameter>) -> (r: Vec<Parameter>)
    ensures
        r@ == ps@,
{
    let mut r: Vec<Parameter> = Vec::new();
    let mut i: usize = 0;
    while i < ps.len()
        invariant
            i <= ps.len(),
            r@ == ps@.subrange(0, i as int),
        decreases ps.len() - i,
    {
        r.push(ps[i].clone());
        i += 1;
    }
    proof {
        assert(r@ =~= ps@);
    }
    r
}

impl Default for Parameter {
    /// An empty parameter: both fields empty.
    fn default() -> (r: Self)
        ensures
            r@.switch == Seq::<char>::empty(),
            r@.explanation == Seq::<char>::empty(),
    {
        Parameter { switch: String::new(), explanation: String::new() }
    }
}

impl Default for Model {
    /// An empty model: every field empty, no parameters.
    fn default() -> (r: Self)
        ensures
            r@.name == Seq::<char>::empty(),
            r@.version == Seq::<char>::empty(),
            r@.url == Seq::<char>::empty(),
            r@.server_url == Seq::<char>::empty(),
            r@.parameters == Seq::<ParameterView>::empty(),
    {
        let r = Model {
            name: String::new(),
            version: String::new(),
            url: String::new(),
            server_url: String::new(),
            parameters: Vec::new(),
        };
        proof {
            assert(r@.parameters =~= Seq::<ParameterView>::empty());
        }
        r
    }
}

impl Default for Models {
    /// The empty catalog, the normal first-run state of the cache.
    fn default() -> (r: Self)
        ensures
            r@ == Seq::<ModelView>::empty(),
    {
        let r = Models { available: Vec::new() };
        proof {
            assert(r@ =~= Seq::<ModelView>::empty());
        }
        r
    }
}

impl Models {
    /// The number of models in the catalog.
    pub fn len(&self) -> (r: usize)
        ensures
            r == self@.len(),
    {
        self.available.len()
    }

    /// Whether a model of the given name is in the catalog.
    pub fn contains_name(&self, name: &String) -> (r: bool)
        ensures
            r == spec_contains_name(self@, name@),
    {
        let mut i: usize = 0;
        while i < self.available.len()
            invariant
                i <= self.available.len(),
                forall|k: int| 0 <= k < i ==> self@[k].name != name@,
            decreases self.available.len() - i,
        {
            if self.available[i].name == *name {
                proof {
                    assert(self@[i as int].name == name@);
                }
                return true;
            }
            i += 1;
        }
        false
    }

    /// Looks the given name up in the catalog and returns the first model
    /// that carries it, or `None` when the catalog has no such model.
    pub fn find(&self, name: &String) -> (r: Option<&Model>)
        ensures
            r is Some <==> spec_contains_name(self@, name@),
            r matches Some(m) ==> {
                exists|i: int|
                    0 <= i < self@.len() && self@[i].name == name@ && m@ == self@[i]
                        && forall|k: int| 0 <= k < i ==> self@[k].name != name@
            },
    {
        let mut i: usize = 0;
        while i < self.available.len()
            invariant
                i <= self.available.len(),
                forall|k: int| 0 <= k < i ==> self@[k].name != name@,
            decreases self.available.len() - i,
        {
            if self.available[i].name == *name {
                proof {
                    let k = i as int;
                    assert(self@[k].name == name@ && self.available[k]@ == self@[k]);
                }
                return Some(&self.available[i]);
            }
            i += 1;
        }
        None
    }

    /// The model names in catalog order, one entry per model, for listing.
    pub fn names(&self) -> (r: Vec<String>)
        ensures
            r@.len() == self@.len(),
            forall|i: int| 0 <= i < r@.len() ==> r@[i]@ == spec_names(self@)[i],
    {
        let mut r: Vec<String> = Vec::new();
        let mut i: usize = 0;
        while i < self.available.len()
            invariant
                i <= self.available.len(),
                r@.len() == i,
                forall|k: int| 0 <= k < i ==> r@[k]@ == self@[k].name,
            decreases self.available.len() - i,
        {
            r.push(self.available[i].name.clone());
            i += 1;
        }
        r
    }

    /// Appends a model to the catalog, as the artifact fetcher does when it
    /// records a freshly downloaded model in the cache.
    pub fn add_model(&mut self, m: &Model)
        ensures
            final(self)@ == old(self)@.push(m@),
    {
        self.available.push(m.clone());
        proof {
            assert(self@ =~= old(self)@.push(m@));
        }
    }

    /// Whether no model name appears twice in the catalog.
    pub fn check_names_unique(&self) -> (r: bool)
        ensures
            r == names_unique(self@),
    {
        let mut i: usize = 0;
        while i < self.available.len()
            invariant
                i <= self.available.len(),
                forall|p: int, q: int| 0 <= p < q < i ==> self@[p].name != self@[q].name,
            decreases self.available.len() - i,
        {
            let mut j: usize = 0;
            while j < i
                invariant
                    j <= i < self.available.len(),
                    forall|q: int| 0 <= q < j ==> self@[q].name != self@[i as int].name,
                decreases i - j,
            {
                if self.available[j].name == self.available[i].name {
                    proof {
                        assert(self@[j as int].name == self@[i as int].name);
                    }
                    return false;
                }
                j += 1;
            }
            i += 1;
        }
        true
    }
}

/// The listing law: a catalog that meets the uniqueness invariant lists each
/// model name exactly once, in catalog order — the listing has one entry per
/// model and no two entries are equal.
pub proof fn lemma_listing_names_unique(c: Seq<ModelView>)
    requires
        names_unique(c),
    ensures
        spec_names(c).len() == c.len(),
        forall|i: int| 0 <= i < c.len() ==> spec_names(c)[i] == c[i].name,
        forall|i: int, j: int| 0 <= i < j < c.len() ==> spec_names(c)[i] != spec_names(c)[j],
{
}

/// Appending a model of a fresh name keeps the uniqueness invariant.
pub proof fn lemma_add_fresh_name_keeps_unique(c: Seq<ModelView>, m: ModelView)
    requires
        names_unique(c),
        !spec_contains_name(c, m.name),
    ensures
        names_unique(c.push(m)),
        spec_contains_name(c.push(m), m.name),
{
    assert forall|i: int, j: int| 0 <= i < j < c.push(m).len() implies c.push(m)[i].name
        != c.push(m)[j].name by {
        if j == c.len() {
            assert(c.push(m)[i] == c[i]);
        }
    }
    assert(c.push(m)[c.len() as int].name == m.name);
}

} // verus!
