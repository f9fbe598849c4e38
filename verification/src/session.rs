//! The render session: a template, the bookkeeping of its tag occurrences,
//! and the two passes by which each occurrence is resolved.

use crate::sandbox::{Internal, LuaValue};
use crate::scanner::{scan, split_around_tags, tag_matches, tag_pieces, tag_texts, texts, weave};
use crate::value_source::GetValueByName;
use vstd::prelude::*;
use vstd::string::*;

verus! {

/// How the resolution of one tag occurrence ended.
#[derive(Debug, Clone, PartialEq)]
pub enum TagOutcome {
    /// The tag text did not run as script text.
    ValidationFailed,
    /// The tag text ran, and the value source holds nothing under it.
    ResolutionFailed,
    /// The tag text ran, and the value source gave this value.
    Resolved(String),
}

/// The text that stands in the place of an occurrence with this outcome.
pub open spec fn substitution(outcome: TagOutcome) -> Seq<char> {
    match outcome {
        TagOutcome::Resolved(value) => value@,
        _ => Seq::empty(),
    }
}

/// The substitutions of a sequence of outcomes, in order.
pub open spec fn substitutions(outcomes: Seq<TagOutcome>) -> Seq<Seq<char>> {
    outcomes.map_values(|o: TagOutcome| substitution(o))
}

/// Whether every outcome is a resolved one.
pub open spec fn all_resolved(outcomes: Seq<TagOutcome>) -> bool {
    forall|i: int| 0 <= i < outcomes.len() ==> #[trigger] outcomes[i] is Resolved
}

/// The outcome of the value-lookup pass on what the value source returned.
pub open spec fn resolution(looked_up: Option<String>) -> TagOutcome {
    match looked_up {
        Some(value) => TagOutcome::Resolved(value),
        None => TagOutcome::ResolutionFailed,
    }
}

/// Whether a render succeeded, and the text that it produced.
pub open spec fn rendering_of(rendered: Result<String, String>) -> (bool, Seq<char>) {
    match rendered {
        Ok(text) => (true, text@),
        Err(text) => (false, text@),
    }
}

/// The outcome of the value-lookup pass on what the value source returned.
pub fn resolve(looked_up: Option<String>) -> (outcome: TagOutcome)
    ensures
        outcome == resolution(looked_up),
{
    match looked_up {
        Some(value) => TagOutcome::Resolved(value),
        None => TagOutcome::ResolutionFailed,
    }
}

/// Puts the substitution of each outcome between the pieces of a template:
/// `Ok` with the text where every occurrence was resolved, `Err` with the
/// same text, failed occurrences left empty, where one was not.
pub fn assemble(pieces: &Vec<String>, outcomes: &Vec<TagOutcome>) -> (rendered: Result<
    String,
    String,
>)
    requires
        pieces@.len() == outcomes@.len() + 1,
    ensures
        rendering_of(rendered) == (
            all_resolved(outcomes@),
            weave(texts(pieces@), substitutions(outcomes@)),
        ),
{
    let ghost parts = texts(pieces@);
    let ghost inserts = substitutions(outcomes@);
    let mut text = String::new();
    let mut succeeded = true;
    let mut i: usize = 0;
    proof {
        assert(parts.skip(0) == parts);
        assert(inserts.skip(0) == inserts);
    }
    while i < outcomes.len()
        invariant
            i <= outcomes@.len(),
            pieces@.len() == outcomes@.len() + 1,
            parts == texts(pieces@),
            inserts == substitutions(outcomes@),
            weave(parts, inserts) == text@ + weave(parts.skip(i as int), inserts.skip(i as int)),
            succeeded == all_resolved(outcomes@.take(i as int)),
        decreases outcomes@.len() - i,
    {
        proof {
            assert(parts.skip(i as int).skip(1) == parts.skip(i as int + 1));
            assert(inserts.skip(i as int).skip(1) == inserts.skip(i as int + 1));
            assert(parts.skip(i as int)[0] == pieces@[i as int]@);
            assert(inserts.skip(i as int)[0] == substitution(outcomes@[i as int]));
        }
        let ghost before = text@;
        text.append(pieces[i].as_str());
        match &outcomes[i] {
            TagOutcome::Resolved(value) => {
                text.append(value.as_str());
            },
            _ => {
                succeeded = false;
            },
        }
        proof {
            let piece = pieces@[i as int]@;
            let insert = substitution(outcomes@[i as int]);
            let rest = weave(parts.skip(i as int + 1), inserts.skip(i as int + 1));
            assert(text@ == before + piece + insert);
            assert(before + (piece + insert + rest) == (before + piece + insert) + rest);
            assert(outcomes@.take(i as int + 1).take(i as int) == outcomes@.take(i as int));
            assert(outcomes@.take(i as int + 1)[i as int] == outcomes@[i as int]);
            if all_resolved(outcomes@.take(i as int + 1)) {
                assert forall|j: int| 0 <= j < i implies #[trigger] outcomes@.take(i as int)[j] is Resolved by {
                    assert(outcomes@.take(i as int + 1)[j] is Resolved);
                }
            }
            if outcomes@[i as int] is Resolved && all_resolved(outcomes@.take(i as int)) {
                assert forall|j: int| 0 <= j < i + 1 implies #[trigger] outcomes@.take(
                    i as int + 1,
                )[j] is Resolved by {
                    if j < i {
                        assert(outcomes@.take(i as int)[j] is Resolved);
                    }
                }
            }
        }
        i = i + 1;
    }
    proof {
        assert(outcomes@.take(i as int) == outcomes@);
        assert(parts.skip(i as int)[0] == pieces@[i as int]@);
    }
    text.append(pieces[i].as_str());
    if succeeded {
        Ok(text)
    } else {
        Err(text)
    }
}

/// The mathematical value of a render session.
#[verifier::ext_equal]
pub ghost struct MllView {
    /// The template text.
    pub template: Seq<char>,
    /// The pre-process script text.
    pub pre_process_script: Seq<char>,
    /// One entry per tag occurrence processed so far, oldest first: the
    /// synthetic name given to the occurrence, and its raw tag text.
    pub tags: Seq<(Seq<char>, Seq<char>)>,
    /// The raw tag texts that were resolved.
    pub processed: Set<Seq<char>>,
}

/// The views of the entries of a tag map.
pub open spec fn entry_views(entries: Seq<(String, String)>) -> Seq<(Seq<char>, Seq<char>)> {
    entries.map_values(|e: (String, String)| (e.0@, e.1@))
}

/// The raw tag texts that a session has recorded, one per occurrence.
pub open spec fn rendered_tags(session: MllView) -> Seq<Seq<char>> {
    session.tags.map_values(|e: (Seq<char>, Seq<char>)| e.1)
}

/// The recorded raw tag texts that are not among the resolved ones, one per
/// occurrence.
pub open spec fn missing_variables(session: MllView) -> Seq<Seq<char>> {
    rendered_tags(session).filter(|tag: Seq<char>| !session.processed.contains(tag))
}

/// The session after one occurrence of `tag`, named `name`, ended with
/// `outcome`: the occurrence is recorded whatever the outcome, and the tag
/// counts as processed where it was resolved.
pub open spec fn record_step(
    session: MllView,
    name: Seq<char>,
    tag: Seq<char>,
    outcome: TagOutcome,
) -> MllView {
    MllView {
        tags: session.tags.push((name, tag)),
        processed: if outcome is Resolved {
            session.processed.insert(tag)
        } else {
            session.processed
        },
        ..session
    }
}

/// The session after the occurrences `tags`, in order, each with its name
/// and its outcome.
pub open spec fn record_all(
    session: MllView,
    names: Seq<Seq<char>>,
    tags: Seq<Seq<char>>,
    outcomes: Seq<TagOutcome>,
) -> MllView
    decreases tags.len(),
{
    if tags.len() == 0 || names.len() != tags.len() || outcomes.len() != tags.len() {
        session
    } else {
        record_step(
            record_all(session, names.drop_last(), tags.drop_last(), outcomes.drop_last()),
            names.last(),
            tags.last(),
            outcomes.last(),
        )
    }
}

/// Whether `c` is a decimal digit or a letter from `a` to `f`.
pub open spec fn is_lower_hex(c: char) -> bool {
    ('0' <= c && c <= '9') || ('a' <= c && c <= 'f')
}

/// Whether `name` has the form of a synthetic name: `v_` and 32 lower-case
/// hexadecimal digits.
pub open spec fn is_synthetic_name(name: Seq<char>) -> bool {
    &&& name.len() == 34
    &&& name[0] == 'v'
    &&& name[1] == '_'
    &&& forall|i: int| 2 <= i < 34 ==> is_lower_hex(#[trigger] name[i])
}

/// The script text of the validation pass: the assignment of the tag text to
/// the synthetic name.
pub open spec fn validation_script(name: Seq<char>, tag: Seq<char>) -> Seq<char> {
    name + seq![' ', '=', ' '] + tag
}

/// What one render of `before.template` against `table` may do: `names` and
/// `outcomes` are the synthetic name and the outcome of each tag occurrence,
/// in textual order.
pub open spec fn render_relation<T: GetValueByName<String>>(
    before: MllView,
    after: MllView,
    table: &T,
    rendered: Result<String, String>,
    names: Seq<Seq<char>>,
    outcomes: Seq<TagOutcome>,
) -> bool {
    let tags = tag_texts(tag_matches(before.template));
    &&& names.len() == tags.len()
    &&& outcomes.len() == tags.len()
    &&& forall|i: int| 0 <= i < names.len() ==> is_synthetic_name(#[trigger] names[i])
    &&& table.is_fixed() ==> forall|i: int|
        0 <= i < tags.len() ==> (#[trigger] outcomes[i]) is ValidationFailed || outcomes[i]
            == resolution(table.value_of(tags[i]))
    &&& after == record_all(before, names, tags, outcomes)
    &&& rendering_of(rendered) == (
        all_resolved(outcomes),
        weave(tag_pieces(before.template), substitutions(outcomes)),
    )
}

/// Calls `uuid::Uuid::new_v4` and writes the identifier with
/// `uuid::fmt::Simple::encode_lower`: 32 lower-case hexadecimal digits
/// without hyphens. Which digits is left open: they are random.
#[verifier::external_body]
pub(crate) fn random_hex() -> (digits: String)
    ensures
        digits@.len() == 32,
        forall|i: int| 0 <= i < 32 ==> is_lower_hex(#[trigger] digits@[i]),
{
    let id = uuid::Uuid::new_v4();
    id.simple().encode_lower(&mut uuid::Uuid::encode_buffer()).to_string()
}

/// A fresh synthetic name for one tag occurrence.
pub fn synthetic_name() -> (name: String)
    ensures
        is_synthetic_name(name@),
{
    let digits = random_hex();
    let mut name = String::new();
    name.append("v_");
    proof {
        reveal_strlit("v_");
    }
    name.append(digits.as_str());
    name
}

/// The validation pass on one occurrence: runs the assignment of the tag
/// text to the synthetic name as script text in a sandbox of its own, and
/// tells whether it ran. What the script computed is discarded with the
/// sandbox.
pub fn validate(name: &str, tag: &str) -> (valid: bool) {
    let script = script_for(name, tag);
    let sandbox = Internal::new();
    sandbox.load_script(script.as_str()).is_ok()
}

/// The script text that the validation pass runs for one occurrence.
pub fn script_for(name: &str, tag: &str) -> (script: String)
    ensures
        script@ == validation_script(name@, tag@),
{
    let mut script = String::new();
    script.append(name);
    script.append(" = ");
    script.append(tag);
    proof {
        reveal_strlit(" = ");
        assert(script@ == validation_script(name@, tag@));
    }
    script
}

/// The outcome of one occurrence of `tag`, given whether its validation
/// pass ran: where it did not, the occurrence failed validation and the
/// value source is not asked; where it did, the outcome is that of the
/// lookup of the raw tag text in `table`.
pub fn settle<T: GetValueByName<String>>(valid: bool, table: &T, tag: &str) -> (outcome:
    TagOutcome)
    ensures
        !valid ==> outcome is ValidationFailed,
        valid ==> !(outcome is ValidationFailed),
        valid && table.is_fixed() ==> outcome == resolution(table.value_of(tag@)),
{
    if valid {
        resolve(table.get_by_name(tag))
    } else {
        TagOutcome::ValidationFailed
    }
}

/// A render session: a template, an optional pre-process script, and the
/// bookkeeping of the tag occurrences processed so far. The bookkeeping
/// grows with each render; a caller that wants it empty starts a new session.
pub struct Mll {
    template: String,
    pre_process_script: String,
    tags: Vec<(String, String)>,
    processed_tags: Vec<String>,
}

impl View for Mll {
    type V = MllView;

    closed spec fn view(&self) -> MllView {
        MllView {
            template: self.template@,
            pre_process_script: self.pre_process_script@,
            tags: entry_views(self.tags@),
            processed: texts(self.processed_tags@).to_set(),
        }
    }
}

impl Mll {
    /// An empty session.
    pub fn new() -> (session: Mll)
        ensures
            session@ == (MllView {
                template: Seq::empty(),
                pre_process_script: Seq::empty(),
                tags: Seq::empty(),
                processed: Set::empty(),
            }),
    {
        let session = Mll {
            template: String::new(),
            pre_process_script: String::new(),
            tags: Vec::new(),
            processed_tags: Vec::new(),
        };
        assert(session@.tags =~= Seq::empty());
        assert(session@.processed =~= Set::empty());
        session
    }

    /// The pre-process script text.
    pub fn pre_process_script(&self) -> (script: &String)
        ensures
            script@ == self@.pre_process_script,
    {
        &self.pre_process_script
    }

    /// Replaces the pre-process script text.
    pub fn set_pre_process_script(&mut self, script: String)
        ensures
            final(self)@ == (MllView { pre_process_script: script@, ..old(self)@ }),
    {
        self.pre_process_script = script;
    }

    /// The template text.
    pub fn template(&self) -> (template: &String)
        ensures
            template@ == self@.template,
    {
        &self.template
    }

    /// Replaces the template text.
    pub fn set_template(&mut self, template: String)
        ensures
            final(self)@ == (MllView { template: template@, ..old(self)@ }),
    {
        self.template = template;
    }

    /// Whether `tag` is among the resolved tag texts.
    fn is_processed(&self, tag: &String) -> (found: bool)
        ensures
            found == self@.processed.contains(tag@),
    {
        let mut i: usize = 0;
        while i < self.processed_tags.len()
            invariant
                i <= self.processed_tags@.len(),
                forall|j: int| 0 <= j < i ==> self.processed_tags@[j]@ != tag@,
            decreases self.processed_tags@.len() - i,
        {
            if self.processed_tags[i] == *tag {
                assert(texts(self.processed_tags@)[i as int] == tag@);
                return true;
            }
            i = i + 1;
        }
        assert forall|j: int| 0 <= j < texts(self.processed_tags@).len() implies texts(
            self.processed_tags@,
        )[j] != tag@ by {
            assert(self.processed_tags@[j]@ != tag@);
        }
        false
    }

    /// Records one occurrence of `tag` under `name` with its `outcome`.
    pub fn record(&mut self, name: String, tag: String, outcome: &TagOutcome)
        ensures
            final(self)@ == record_step(old(self)@, name@, tag@, *outcome),
    {
        let resolved = match outcome {
            TagOutcome::Resolved(_) => true,
            _ => false,
        };
        let ghost before = self@;
        if resolved && !self.is_processed(&tag) {
            let ghost held = self.processed_tags@;
            self.processed_tags.push(tag.clone());
            assert(texts(self.processed_tags@) =~= texts(held).push(tag@));
            assert(texts(held).push(tag@).to_set() =~= texts(held).to_set().insert(tag@)) by {
                let grown = texts(held).push(tag@);
                assert forall|t: Seq<char>| grown.to_set().contains(t) implies texts(
                    held,
                ).to_set().insert(tag@).contains(t) by {
                    let j = choose|j: int| 0 <= j < grown.len() && grown[j] == t;
                    if j < texts(held).len() {
                        assert(texts(held)[j] == t);
                    }
                }
                assert forall|t: Seq<char>|
                    texts(held).to_set().insert(tag@).contains(t) implies grown.to_set().contains(
                    t,
                ) by {
                    if t == tag@ {
                        assert(grown[grown.len() - 1] == t);
                    } else {
                        let j = choose|j: int| 0 <= j < texts(held).len() && texts(held)[j] == t;
                        assert(grown[j] == t);
                    }
                }
            }
        }
        let ghost entries = self.tags@;
        self.tags.push((name, tag));
        assert(entry_views(self.tags@) =~= entry_views(entries).push((name@, tag@)));
        assert(self@ =~= record_step(before, name@, tag@, *outcome));
    }

    /// Renders the template against `table`. Each tag occurrence, in textual
    /// order, is recorded under a fresh synthetic name, validated as script
    /// text in a sandbox of its own and, where that ran, looked up in `table`
    /// by its raw tag text. An occurrence that was resolved is replaced by
    /// its value, any other by the empty text. The result is `Ok` with the
    /// text where every occurrence was resolved, else `Err` with the same,
    /// partially substituted text.
    pub fn render<T: GetValueByName<String>>(&mut self, table: &T) -> (rendered: Result<
        String,
        String,
    >)
        ensures
            exists|names: Seq<Seq<char>>, outcomes: Seq<TagOutcome>|
                render_relation(old(self)@, final(self)@, table, rendered, names, outcomes),
            tag_matches(old(self)@.template).len() == 0 ==> rendering_of(rendered) == (
                true,
                old(self)@.template,
            ) && final(self)@ == old(self)@,
    {
        let template = self.template.clone();
        let found = scan(template.as_str());
        let pieces = split_around_tags(template.as_str());
        let ghost before = self@;
        let ghost tags = tag_texts(tag_matches(before.template));
        let ghost mut names: Seq<Seq<char>> = Seq::empty();
        let mut outcomes: Vec<TagOutcome> = Vec::new();
        let mut i: usize = 0;
        proof {
            assert(tags.len() == found@.len());
            assert(tags.take(0) == Seq::<Seq<char>>::empty());
        }
        while i < found.len()
            invariant
                i <= found@.len(),
                before.template == template@,
                tags == tag_texts(tag_matches(before.template)),
                crate::scanner::occurrence_views(found@) == tag_matches(before.template),
                names.len() == i,
                outcomes@.len() == i,
                forall|j: int| 0 <= j < i ==> is_synthetic_name(#[trigger] names[j]),
                table.is_fixed() ==> forall|j: int|
                    0 <= j < i ==> (#[trigger] outcomes@[j]) is ValidationFailed || outcomes@[j]
                        == resolution(table.value_of(tags[j])),
                self@ == record_all(before, names, tags.take(i as int), outcomes@),
            decreases found@.len() - i,
        {
            let tag = found[i].tag.clone();
            let name = synthetic_name();
            let valid = validate(name.as_str(), tag.as_str());
            let outcome = settle(valid, table, tag.as_str());
            proof {
                assert(tags[i as int] == found@[i as int]@.tag);
                assert(tag@ == tags[i as int]);
                let grown_names = names.push(name@);
                let grown_tags = tags.take(i as int + 1);
                let grown_outcomes = outcomes@.push(outcome);
                assert(grown_names.drop_last() == names);
                assert(grown_tags.drop_last() == tags.take(i as int));
                assert(grown_outcomes.drop_last() == outcomes@);
                assert(grown_tags.last() == tags[i as int]);
                names = grown_names;
            }
            self.record(name, tag, &outcome);
            outcomes.push(outcome);
            i = i + 1;
        }
        proof {
            assert(tags.take(i as int) == tags);
        }
        let rendered = assemble(&pieces, &outcomes);
        proof {
            assert(render_relation(before, self@, table, rendered, names, outcomes@));
            if tag_matches(before.template).len() == 0 {
                assert(crate::scanner::whole_texts(tag_matches(before.template)).len() == 0);
                assert(substitutions(outcomes@).len() == 0);
            }
        }
        rendered
    }

    /// Renders against `table` where the pre-process script ran; where the
    /// script failed, hands its error on and leaves the session as it was.
    pub fn render_after_script<T: GetValueByName<String>>(
        &mut self,
        ran: Result<(), String>,
        table: &T,
    ) -> (rendered: Result<String, String>)
        ensures
            ran is Err ==> rendered == Err::<String, String>(ran->Err_0) && final(self)@ == old(
                self,
            )@,
            ran is Ok ==> exists|names: Seq<Seq<char>>, outcomes: Seq<TagOutcome>|
                render_relation(old(self)@, final(self)@, table, rendered, names, outcomes),
            ran is Ok && tag_matches(old(self)@.template).len() == 0 ==> rendering_of(rendered)
                == (true, old(self)@.template) && final(self)@ == old(self)@,
    {
        match ran {
            Ok(_) => self.render(table),
            Err(message) => Err(message),
        }
    }

    /// Runs `script` in a fresh sandbox and renders the template against the
    /// global namespace that the script left. Where the script fails, the
    /// result is `Err` with the script's error message and the session is
    /// unchanged.
    pub fn render_with_lua(&mut self, script: &str) -> (rendered: Result<String, String>)
        ensures
            (rendered is Err && final(self)@ == old(self)@) || exists|
                table: LuaValue,
                names: Seq<Seq<char>>,
                outcomes: Seq<TagOutcome>,
            |
                render_relation(old(self)@, final(self)@, &table, rendered, names, outcomes),
    {
        let internal = Internal::new();
        let ran = internal.load_script(script);
        let table = internal.globals();
        let rendered = self.render_after_script(ran, &table);
        proof {
            if ran is Ok {
                let (names, outcomes) = choose|names: Seq<Seq<char>>, outcomes: Seq<TagOutcome>|
                    render_relation(old(self)@, self@, &table, rendered, names, outcomes);
                assert(render_relation(old(self)@, self@, &table, rendered, names, outcomes));
            }
        }
        rendered
    }

    /// Runs the session's pre-process script in a fresh sandbox, whether or
    /// not it succeeds, and renders the template against the global namespace
    /// that it left.
    pub fn render_lua_globals(&mut self) -> (rendered: Result<String, String>)
        ensures
            exists|table: LuaValue, names: Seq<Seq<char>>, outcomes: Seq<TagOutcome>|
                render_relation(old(self)@, final(self)@, &table, rendered, names, outcomes),
            tag_matches(old(self)@.template).len() == 0 ==> rendering_of(rendered) == (
                true,
                old(self)@.template,
            ) && final(self)@ == old(self)@,
    {
        let internal = Internal::new();
        let script = self.pre_process_script.clone();
        let _ = internal.load_script(script.as_str());
        let table = internal.globals();
        let rendered = self.render(&table);
        proof {
            let (names, outcomes) = choose|names: Seq<Seq<char>>, outcomes: Seq<TagOutcome>|
                render_relation(old(self)@, self@, &table, rendered, names, outcomes);
            assert(render_relation(old(self)@, self@, &table, rendered, names, outcomes));
        }
        rendered
    }

    /// The raw tag texts recorded so far, one per occurrence, oldest first.
    pub fn get_rendered_tags(&self) -> (tags: Vec<String>)
        ensures
            texts(tags@) == rendered_tags(self@),
    {
        let mut tags: Vec<String> = Vec::new();
        let mut i: usize = 0;
        while i < self.tags.len()
            invariant
                i <= self.tags@.len(),
                texts(tags@) == rendered_tags(self@).take(i as int),
            decreases self.tags@.len() - i,
        {
            let ghost held = tags@;
            tags.push(self.tags[i].1.clone());
            proof {
                let tag = self.tags@[i as int].1@;
                assert(rendered_tags(self@)[i as int] == tag);
                assert(texts(tags@) =~= texts(held).push(tag));
                assert(rendered_tags(self@).take(i as int + 1) =~= rendered_tags(self@).take(
                    i as int,
                ).push(tag));
            }
            i = i + 1;
        }
        assert(rendered_tags(self@).take(i as int) =~= rendered_tags(self@));
        tags
    }

    /// The recorded raw tag texts that were never resolved, one per
    /// occurrence, oldest first.
    pub fn get_missing_variables(&self) -> (missing: Vec<String>)
        ensures
            texts(missing@) == missing_variables(self@),
    {
        let ghost unresolved = |tag: Seq<char>| !self@.processed.contains(tag);
        let mut missing: Vec<String> = Vec::new();
        let mut i: usize = 0;
        proof {
            reveal(Seq::filter);
            assert(rendered_tags(self@).take(0) =~= Seq::<Seq<char>>::empty());
        }
        while i < self.tags.len()
            invariant
                i <= self.tags@.len(),
                unresolved == |tag: Seq<char>| !self@.processed.contains(tag),
                texts(missing@) == rendered_tags(self@).take(i as int).filter(unresolved),
            decreases self.tags@.len() - i,
        {
            let tag = &self.tags[i].1;
            let ghost held = missing@;
            proof {
                reveal(Seq::filter);
                let longer = rendered_tags(self@).take(i as int + 1);
                assert(longer.drop_last() =~= rendered_tags(self@).take(i as int));
                assert(longer.last() == tag@);
            }
            if !self.is_processed(tag) {
                missing.push(tag.clone());
                assert(texts(missing@) =~= texts(held).push(tag@));
            }
            i = i + 1;
        }
        assert(rendered_tags(self@).take(i as int) =~= rendered_tags(self@));
        missing
    }
}

} // verus!
