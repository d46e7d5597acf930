//! Template specifications and the registry that finds them by name.

use crate::first::{
    first_some, lemma_first_some_at, lemma_first_some_none, lemma_first_some_witness,
};
use crate::text::str_eq;
use vstd::prelude::*;

verus! {

/// How a template takes part in the flow of a document.
#[derive(Clone, Copy, Debug, PartialEq, Eq, Structural)]
pub enum Format {
    Inline,
    Block,
    Meta,
}

/// What the absence of an attribute means.
#[derive(Clone, Copy, Debug, PartialEq, Eq, Structural)]
pub enum Priority {
    Required,
    Optional,
    Obsolete,
}

/// The checks that an attribute can be bound to.
#[derive(Clone, Copy, Debug, PartialEq, Eq, Structural)]
pub enum Predicate {
    IsMathTag,
    IsPlainText,
    IsNegativeSwitch,
    IsNavigationSpec,
    IsInlineOnly,
    BlockOrInline,
    EverythingIsAllowed,
}

impl Format {
    /// The name of the format.
    pub open spec fn name(self) -> Seq<char> {
        match self {
            Format::Inline => "Inline"@,
            Format::Block => "Block"@,
            Format::Meta => "Meta"@,
        }
    }

    /// The name of the format in small letters.
    pub open spec fn small_name(self) -> Seq<char> {
        match self {
            Format::Inline => "inline"@,
            Format::Block => "block"@,
            Format::Meta => "meta"@,
        }
    }

    /// Returns the name of the format.
    pub fn get_name(&self) -> (name: &'static str)
        ensures
            name@ == self.name(),
    {
        match self {
            Format::Inline => "Inline",
            Format::Block => "Block",
            Format::Meta => "Meta",
        }
    }

    /// Returns the name of the format in small letters.
    pub fn get_small_name(&self) -> (name: &'static str)
        ensures
            name@ == self.small_name(),
    {
        match self {
            Format::Inline => "inline",
            Format::Block => "block",
            Format::Meta => "meta",
        }
    }
}

impl Priority {
    /// The name of the priority.
    pub open spec fn name(self) -> Seq<char> {
        match self {
            Priority::Required => "Required"@,
            Priority::Optional => "Optional"@,
            Priority::Obsolete => "Obsolete"@,
        }
    }

    /// The name of the priority in small letters.
    pub open spec fn small_name(self) -> Seq<char> {
        match self {
            Priority::Required => "required"@,
            Priority::Optional => "optional"@,
            Priority::Obsolete => "obsolete"@,
        }
    }

    /// Returns the name of the priority.
    pub fn get_name(&self) -> (name: &'static str)
        ensures
            name@ == self.name(),
    {
        match self {
            Priority::Required => "Required",
            Priority::Optional => "Optional",
            Priority::Obsolete => "Obsolete",
        }
    }

    /// Returns the name of the priority in small letters.
    pub fn get_small_name(&self) -> (name: &'static str)
        ensures
            name@ == self.small_name(),
    {
        match self {
            Priority::Required => "required",
            Priority::Optional => "optional",
            Priority::Obsolete => "obsolete",
        }
    }
}

impl Predicate {
    /// The name by which a specification refers to this check.
    pub open spec fn name(self) -> Seq<char> {
        match self {
            Predicate::IsMathTag => "is_math_tag"@,
            Predicate::IsPlainText => "is_plain_text"@,
            Predicate::IsNegativeSwitch => "is_negative_switch"@,
            Predicate::IsNavigationSpec => "is_navigation_spec"@,
            Predicate::IsInlineOnly => "is_inline_only"@,
            Predicate::BlockOrInline => "block_or_inline"@,
            Predicate::EverythingIsAllowed => "everything_is_allowed"@,
        }
    }

    /// The check that `name` refers to, if it refers to one.
    pub open spec fn named(name: Seq<char>) -> Option<Predicate> {
        if name == "is_math_tag"@ {
            Some(Predicate::IsMathTag)
        } else if name == "is_plain_text"@ {
            Some(Predicate::IsPlainText)
        } else if name == "is_negative_switch"@ {
            Some(Predicate::IsNegativeSwitch)
        } else if name == "is_navigation_spec"@ {
            Some(Predicate::IsNavigationSpec)
        } else if name == "is_inline_only"@ {
            Some(Predicate::IsInlineOnly)
        } else if name == "block_or_inline"@ {
            Some(Predicate::BlockOrInline)
        } else if name == "everything_is_allowed"@ {
            Some(Predicate::EverythingIsAllowed)
        } else {
            None
        }
    }

    /// Returns the name by which a specification refers to this check.
    pub fn predicate_name(&self) -> (name: &'static str)
        ensures
            name@ == self.name(),
    {
        match self {
            Predicate::IsMathTag => "is_math_tag",
            Predicate::IsPlainText => "is_plain_text",
            Predicate::IsNegativeSwitch => "is_negative_switch",
            Predicate::IsNavigationSpec => "is_navigation_spec",
            Predicate::IsInlineOnly => "is_inline_only",
            Predicate::BlockOrInline => "block_or_inline",
            Predicate::EverythingIsAllowed => "everything_is_allowed",
        }
    }

    /// Resolves the name of a check. Names are matched exactly.
    pub fn by_name(name: &str) -> (found: Option<Predicate>)
        ensures
            found == Predicate::named(name@),
    {
        if str_eq(name, "is_math_tag") {
            Some(Predicate::IsMathTag)
        } else if str_eq(name, "is_plain_text") {
            Some(Predicate::IsPlainText)
        } else if str_eq(name, "is_negative_switch") {
            Some(Predicate::IsNegativeSwitch)
        } else if str_eq(name, "is_navigation_spec") {
            Some(Predicate::IsNavigationSpec)
        } else if str_eq(name, "is_inline_only") {
            Some(Predicate::IsInlineOnly)
        } else if str_eq(name, "block_or_inline") {
            Some(Predicate::BlockOrInline)
        } else if str_eq(name, "everything_is_allowed") {
            Some(Predicate::EverythingIsAllowed)
        } else {
            None
        }
    }

    /// Every check is found again by its own name.
    pub proof fn lemma_named_name(p: Predicate)
        ensures
            Predicate::named(p.name()) == Some(p),
    {
        reveal_strlit("is_math_tag");
        reveal_strlit("is_plain_text");
        reveal_strlit("is_negative_switch");
        reveal_strlit("is_navigation_spec");
        reveal_strlit("is_inline_only");
        reveal_strlit("block_or_inline");
        reveal_strlit("everything_is_allowed");
        assert("is_math_tag"@.len() == 11);
        assert("is_plain_text"@.len() == 13);
        assert("is_negative_switch"@.len() == 18);
        assert("is_navigation_spec"@[4] == 'a');
        assert("is_negative_switch"@[4] == 'e');
        assert("is_inline_only"@.len() == 14);
        assert("block_or_inline"@.len() == 15);
        assert("everything_is_allowed"@.len() == 21);
    }

    /// A name refers to no other check than the one that bears it.
    pub proof fn lemma_name_named(name: Seq<char>, p: Predicate)
        requires
            Predicate::named(name) == Some(p),
        ensures
            p.name() == name,
    {
    }
}

/// Whether one of `names` is `name`.
pub open spec fn lists_name(names: Seq<String>, name: Seq<char>) -> bool {
    exists|k: int| 0 <= k < names.len() && (#[trigger] names[k])@ == name
}

/// Tells whether one of `names` is `name`. Names are matched exactly.
pub fn contains_name(names: &Vec<String>, name: &str) -> (found: bool)
    ensures
        found == lists_name(names@, name@),
{
    let mut k: usize = 0;
    while k < names.len()
        invariant
            0 <= k <= names@.len(),
            forall|j: int| 0 <= j < k ==> (#[trigger] names@[j])@ != name@,
        decreases names@.len() - k,
    {
        if str_eq(names[k].as_str(), name) {
            return true;
        }
        k += 1;
    }
    false
}

/// The rule for one attribute of a template.
#[derive(Clone, Debug, PartialEq)]
pub struct AttributeSpec {
    /// The preferred name of the attribute.
    pub default_name: String,
    /// All names under which the attribute may be given.
    pub names: Vec<String>,
    /// What the absence of the attribute means.
    pub priority: Priority,
    /// The check that the content of the attribute has to pass.
    pub predicate: Predicate,
    /// What the attribute is for.
    pub description: String,
}

impl AttributeSpec {
    /// Returns the preferred name of the attribute.
    pub fn default_name(&self) -> (name: &str)
        ensures
            name@ == self.default_name@,
    {
        self.default_name.as_str()
    }

    /// Returns the name of the check that the attribute is bound to.
    pub fn predicate_name(&self) -> (name: &'static str)
        ensures
            name@ == self.predicate.name(),
    {
        self.predicate.predicate_name()
    }
}

/// The rules for one template.
#[derive(Clone, Debug, PartialEq)]
pub struct TemplateSpec {
    /// The preferred name of the template.
    pub default_name: String,
    /// All names of the template, the preferred one among them.
    pub names: Vec<String>,
    /// How the template takes part in the flow of a document.
    pub format: Format,
    /// What the template is for.
    pub description: String,
    /// The attributes of the template, in the order of their declaration.
    pub attributes: Vec<AttributeSpec>,
}

impl TemplateSpec {
    /// Whether `name` is one of the names of this template.
    pub open spec fn has_name(self, name: Seq<char>) -> bool {
        lists_name(self.names@, name)
    }

    /// Returns the preferred name of the template.
    pub fn default_name(&self) -> (name: &str)
        ensures
            name@ == self.default_name@,
    {
        self.default_name.as_str()
    }
}

/// Each of `specs` lists its preferred name among its names.
pub open spec fn defaults_listed(specs: Seq<TemplateSpec>) -> bool {
    forall|i: int| 0 <= i < specs.len() ==> (#[trigger] specs[i]).has_name(specs[i].default_name@)
}

/// No name belongs to two of `specs`.
pub open spec fn names_distinct(specs: Seq<TemplateSpec>) -> bool {
    forall|i: int, j: int|
        0 <= i < specs.len() && 0 <= j < specs.len() && i != j ==> !share_name(
            #[trigger] specs[i],
            #[trigger] specs[j],
        )
}

/// What a registry demands of the specifications it holds.
pub open spec fn well_formed(specs: Seq<TemplateSpec>) -> bool {
    defaults_listed(specs) && names_distinct(specs)
}

/// The specification among `specs` that has the name `name`.
pub open spec fn find_spec(specs: Seq<TemplateSpec>, name: Seq<char>) -> Option<TemplateSpec> {
    first_some(specs, named_so(name))
}

/// The choice of the specifications that have the name `name`.
pub open spec fn named_so(name: Seq<char>) -> spec_fn(TemplateSpec) -> Option<TemplateSpec> {
    |s: TemplateSpec|
        if s.has_name(name) {
            Some(s)
        } else {
            None
        }
}

/// Why a list of specifications makes no registry.
#[derive(Clone, Debug, PartialEq, Eq)]
pub enum RegistryError {
    /// The specification at this position does not list its preferred name
    /// among its names.
    DefaultNameNotListed(usize),
    /// The specification at the first position shares a name with the one at
    /// the second.
    DuplicateName(usize, usize),
}

/// `at` is the first position in `specs` of a specification that does not
/// list its preferred name.
pub open spec fn first_unlisted(specs: Seq<TemplateSpec>, at: int) -> bool {
    &&& 0 <= at < specs.len()
    &&& !specs[at].has_name(specs[at].default_name@)
    &&& defaults_listed(specs.take(at))
}

/// `later` is the first position in `specs` of a specification that shares a
/// name with one before it, and `earlier` is the first position of one it
/// shares a name with.
pub open spec fn first_clash(specs: Seq<TemplateSpec>, earlier: int, later: int) -> bool {
    &&& 0 <= earlier < later < specs.len()
    &&& share_name(specs[earlier], specs[later])
    &&& names_distinct(specs.take(later))
    &&& forall|j: int| 0 <= j < earlier ==> !share_name(#[trigger] specs[j], specs[later])
}

/// `a` and `b` have a name in common.
pub open spec fn share_name(a: TemplateSpec, b: TemplateSpec) -> bool {
    exists|name: Seq<char>| a.has_name(name) && b.has_name(name)
}

/// Sharing a name does not depend on the order of the two.
pub proof fn lemma_share_name_symmetric(a: TemplateSpec, b: TemplateSpec)
    ensures
        share_name(a, b) == share_name(b, a),
{
    if share_name(a, b) {
        let name = choose|name: Seq<char>| a.has_name(name) && b.has_name(name);
        assert(b.has_name(name) && a.has_name(name));
    }
    if share_name(b, a) {
        let name = choose|name: Seq<char>| b.has_name(name) && a.has_name(name);
        assert(a.has_name(name) && b.has_name(name));
    }
}

/// The specifications of all known templates. Built once, then only read.
pub struct Registry {
    specs: Vec<TemplateSpec>,
}

impl View for Registry {
    type V = Seq<TemplateSpec>;

    closed spec fn view(&self) -> Seq<TemplateSpec> {
        self.specs@
    }
}

/// Tells whether `a` and `b` have a name in common.
fn shares_name(a: &TemplateSpec, b: &TemplateSpec) -> (shared: bool)
    ensures
        shared == share_name(*a, *b),
{
    let mut k: usize = 0;
    while k < a.names.len()
        invariant
            0 <= k <= a.names@.len(),
            forall|j: int| 0 <= j < k ==> !b.has_name((#[trigger] a.names@[j])@),
        decreases a.names@.len() - k,
    {
        if contains_name(&b.names, a.names[k].as_str()) {
            assert(a.has_name(a.names@[k as int]@) && b.has_name(a.names@[k as int]@));
            return true;
        }
        k += 1;
    }
    false
}

impl Registry {
    #[verifier::type_invariant]
    spec fn inv(self) -> bool {
        well_formed(self.specs@)
    }

    /// Builds the registry of `specs`. A list in which a specification does
    /// not list its preferred name, or in which two specifications share a
    /// name, is refused; the first such fault is reported, a missing
    /// preferred name before any shared name.
    pub fn new(specs: Vec<TemplateSpec>) -> (made: Result<Registry, RegistryError>)
        ensures
            made is Ok <==> well_formed(specs@),
            made matches Ok(registry) ==> registry@ == specs@,
            made matches Err(RegistryError::DefaultNameNotListed(at)) ==> first_unlisted(
                specs@,
                at as int,
            ),
            made matches Err(RegistryError::DuplicateName(earlier, later)) ==> defaults_listed(
                specs@,
            ) && first_clash(specs@, earlier as int, later as int),
    {
        let mut i: usize = 0;
        while i < specs.len()
            invariant
                0 <= i <= specs@.len(),
                defaults_listed(specs@.take(i as int)),
            decreases specs@.len() - i,
        {
            if !contains_name(&specs[i].names, specs[i].default_name.as_str()) {
                return Err(RegistryError::DefaultNameNotListed(i));
            }
            proof {
                assert forall|k: int| 0 <= k < i + 1 implies (#[trigger] specs@.take(
                    i + 1,
                )[k]).has_name(specs@.take(i + 1)[k].default_name@) by {
                    if k < i {
                        assert(specs@.take(i as int)[k] == specs@.take(i + 1)[k]);
                    }
                }
            }
            i += 1;
        }
        assert(specs@.take(i as int) =~= specs@);
        let mut later: usize = 0;
        while later < specs.len()
            invariant
                0 <= later <= specs@.len(),
                defaults_listed(specs@),
                names_distinct(specs@.take(later as int)),
            decreases specs@.len() - later,
        {
            let mut earlier: usize = 0;
            while earlier < later
                invariant
                    0 <= earlier <= later < specs@.len(),
                    defaults_listed(specs@),
                    names_distinct(specs@.take(later as int)),
                    forall|j: int|
                        0 <= j < earlier ==> !share_name(#[trigger] specs@[j], specs@[later as int]),
                decreases later - earlier,
            {
                if shares_name(&specs[earlier], &specs[later]) {
                    return Err(RegistryError::DuplicateName(earlier, later));
                }
                earlier += 1;
            }
            proof {
                let grown = specs@.take(later + 1);
                assert forall|i: int, j: int|
                    0 <= i < grown.len() && 0 <= j < grown.len() && i != j implies !share_name(
                    #[trigger] grown[i],
                    #[trigger] grown[j],
                ) by {
                    if i < later && j < later {
                        assert(specs@.take(later as int)[i] == grown[i]);
                        assert(specs@.take(later as int)[j] == grown[j]);
                    } else if i < later {
                        assert(!share_name(specs@[i], specs@[later as int]));
                    } else {
                        assert(!share_name(specs@[j], specs@[later as int]));
                        lemma_share_name_symmetric(specs@[j], specs@[later as int]);
                    }
                }
            }
            later += 1;
        }
        assert(specs@.take(later as int) =~= specs@);
        Ok(Registry { specs })
    }

    /// Finds the specification of the template named `name`. The name has to
    /// be one of the names of the specification, letter for letter.
    pub fn spec_of(&self, name: &str) -> (found: Option<&TemplateSpec>)
        ensures
            well_formed(self@),
            match found {
                Some(spec) => find_spec(self@, name@) == Some(*spec),
                None => find_spec(self@, name@) is None,
            },
    {
        proof {
            use_type_invariant(self);
        }
        let mut i: usize = 0;
        while i < self.specs.len()
            invariant
                0 <= i <= self.specs@.len(),
                well_formed(self.specs@),
                forall|j: int| 0 <= j < i ==> named_so(name@)(#[trigger] self.specs@[j]) is None,
            decreases self.specs@.len() - i,
        {
            if contains_name(&self.specs[i].names, name) {
                proof {
                    lemma_first_some_at(self.specs@, named_so(name@), i as int);
                }
                return Some(&self.specs[i]);
            }
            i += 1;
        }
        proof {
            lemma_first_some_none(self.specs@, named_so(name@));
        }
        None
    }

    /// Returns the specifications that the registry holds.
    pub fn specs(&self) -> (specs: &Vec<TemplateSpec>)
        ensures
            specs@ == self@,
            well_formed(self@),
    {
        proof {
            use_type_invariant(self);
        }
        &self.specs
    }
}

/// Looking up any name of a registered specification finds that
/// specification.
pub proof fn lemma_lookup_finds(specs: Seq<TemplateSpec>, i: int, name: Seq<char>)
    requires
        well_formed(specs),
        0 <= i < specs.len(),
        specs[i].has_name(name),
    ensures
        find_spec(specs, name) == Some(specs[i]),
{
    assert forall|j: int| 0 <= j < i implies named_so(name)(#[trigger] specs[j]) is None by {
        if specs[j].has_name(name) {
            assert(share_name(specs[j], specs[i]));
        }
    }
    lemma_first_some_at(specs, named_so(name), i);
}

/// A name belongs to at most one registered specification.
pub proof fn lemma_names_belong_to_one(specs: Seq<TemplateSpec>, i: int, j: int, name: Seq<char>)
    requires
        well_formed(specs),
        0 <= i < specs.len(),
        0 <= j < specs.len(),
        specs[i].has_name(name),
        specs[j].has_name(name),
    ensures
        i == j,
{
    assert(share_name(specs[i], specs[j]));
}

/// What a lookup finds is a registered specification that has the name
/// looked up; it finds nothing only where no specification has the name.
pub proof fn lemma_lookup_sound(specs: Seq<TemplateSpec>, name: Seq<char>)
    ensures
        match find_spec(specs, name) {
            Some(spec) => spec.has_name(name) && specs.contains(spec),
            None => forall|i: int| 0 <= i < specs.len() ==> !(#[trigger] specs[i]).has_name(name),
        },
{
    lemma_first_some_none(specs, named_so(name));
    if find_spec(specs, name) is Some {
        let i = lemma_first_some_witness(specs, named_so(name));
        assert(specs[i].has_name(name));
    } else {
        assert forall|i: int| 0 <= i < specs.len() implies !(#[trigger] specs[i]).has_name(
            name,
        ) by {
            assert(named_so(name)(specs[i]) is None);
        }
    }
}

} // verus!
