//! The arguments of the command line, and the parameters that they give.

use crate::marshal::{JsonValue, JsonView};
use vstd::prelude::*;
use vstd::string::*;

verus! {

/// Named parameters. Where a name occurs more than once, its last entry
/// counts.
#[derive(Debug)]
pub struct Parameters {
    pub map: Vec<(String, JsonValue)>,
}

/// The value of the last entry of `entries` whose name is `name`.
pub open spec fn last_value(entries: Seq<(String, JsonValue)>, name: Seq<char>) -> Option<JsonView>
    decreases entries.len(),
{
    if entries.len() == 0 {
        None
    } else if entries.last().0@ == name {
        Some(entries.last().1@)
    } else {
        last_value(entries.drop_last(), name)
    }
}

impl Parameters {
    /// No parameters.
    pub fn new() -> (parameters: Parameters)
        ensures
            parameters.map@.len() == 0,
    {
        Parameters { map: Vec::new() }
    }

    /// The parameters of the given entries.
    pub fn new_with_map(map: Vec<(String, JsonValue)>) -> (parameters: Parameters)
        ensures
            parameters.map == map,
    {
        Parameters { map }
    }

    /// What the parameters hold under `name`.
    pub open spec fn value_of(&self, name: Seq<char>) -> Option<JsonView> {
        last_value(self.map@, name)
    }

    /// The value under `name`, if there is one.
    pub fn get(&self, name: &str) -> (value: Option<&JsonValue>)
        ensures
            match value {
                Some(found) => self.value_of(name@) == Some(found@),
                None => self.value_of(name@) is None,
            },
    {
        let wanted = name.to_owned();
        let mut i: usize = self.map.len();
        assert(self.map@.take(i as int) == self.map@);
        while i > 0
            invariant
                i <= self.map@.len(),
                wanted@ == name@,
                last_value(self.map@, name@) == last_value(self.map@.take(i as int), name@),
            decreases i,
        {
            assert(self.map@.take(i as int).last() == self.map@[i as int - 1]);
            assert(self.map@.take(i as int).drop_last() == self.map@.take(i as int - 1));
            i = i - 1;
            if self.map[i].0 == wanted {
                return Some(&self.map[i].1);
            }
        }
        None
    }
}

/// The index of the first `=` in `pair`, or the length of `pair` where it
/// holds none.
pub open spec fn first_equals(pair: Seq<char>) -> int
    decreases pair.len(),
{
    if pair.len() == 0 {
        0
    } else if pair[0] == '=' {
        0
    } else {
        1 + first_equals(pair.skip(1))
    }
}

/// The first `=` of `pair` lies inside `pair` exactly where `pair` holds
/// one, and nothing before it is a `=`.
pub proof fn lemma_first_equals(pair: Seq<char>)
    ensures
        0 <= first_equals(pair) <= pair.len(),
        first_equals(pair) < pair.len() ==> pair[first_equals(pair)] == '=',
        forall|i: int| 0 <= i < first_equals(pair) ==> pair[i] != '=',
        pair.contains('=') <==> first_equals(pair) < pair.len(),
    decreases pair.len(),
{
    if pair.len() > 0 && pair[0] != '=' {
        let rest = pair.skip(1);
        lemma_first_equals(rest);
        assert forall|i: int| 0 <= i < first_equals(pair) implies pair[i] != '=' by {
            if i > 0 {
                assert(rest[i - 1] == pair[i]);
            }
        }
        if pair.contains('=') {
            let i = choose|i: int| 0 <= i < pair.len() && pair[i] == '=';
            assert(rest[i - 1] == '=');
        }
        if first_equals(pair) < pair.len() {
            assert(pair[first_equals(pair)] == rest[first_equals(rest)]);
        }
    } else if pair.len() > 0 {
        assert(pair[0] == '=');
    }
}

/// The key of `key=value`: what stands before the first `=`.
pub open spec fn key_of(pair: Seq<char>) -> Seq<char> {
    pair.subrange(0, first_equals(pair))
}

/// The value of `key=value`: what stands behind the first `=`.
pub open spec fn value_of_pair(pair: Seq<char>) -> Seq<char> {
    pair.subrange(first_equals(pair) + 1, pair.len() as int)
}

/// Whether `entries` are the parameters that `params` give: one entry per
/// parameter, in order, under its key and with its value as a JSON string.
pub open spec fn given_by(entries: Seq<(String, JsonValue)>, params: Seq<String>) -> bool {
    &&& entries.len() == params.len()
    &&& forall|i: int|
        0 <= i < params.len() ==> (#[trigger] entries[i]).0@ == key_of(params[i]@) && entries[i].1@
            == JsonView::Text(value_of_pair(params[i]@))
}

/// The arguments of the command line.
#[derive(Debug, Clone, PartialEq)]
pub struct Args {
    /// The template file.
    pub template: Option<String>,
    /// The parameter file.
    pub parameter: Option<String>,
    /// The output file.
    pub output: Option<String>,
    /// Parameters, each written as `key=value`.
    pub params: Vec<String>,
}

/// Whether a text is given and not empty.
pub open spec fn is_given(text: Option<String>) -> bool {
    text is Some && text->Some_0@.len() > 0
}

/// Whether a text is given and not empty.
fn given(text: &Option<String>) -> (r: bool)
    ensures
        r == is_given(*text),
{
    match text {
        Some(t) => !t.as_str().is_empty(),
        None => false,
    }
}

impl Args {
    /// Whether a template file is named.
    pub fn is_template_passed(&self) -> (passed: bool)
        ensures
            passed == is_given(self.template),
    {
        given(&self.template)
    }

    /// Whether a parameter file is named.
    pub fn is_parameter_passed(&self) -> (passed: bool)
        ensures
            passed == is_given(self.parameter),
    {
        given(&self.parameter)
    }

    /// Whether an output file is named.
    pub fn is_output_passed(&self) -> (passed: bool)
        ensures
            passed == is_given(self.output),
    {
        given(&self.output)
    }

    /// Whether parameters are given on the command line.
    pub fn is_parameters_passed(&self) -> (passed: bool)
        ensures
            passed == (self.params@.len() > 0),
    {
        self.params.len() > 0
    }

    /// The path of the template file.
    pub fn get_template_file_path(&self) -> (path: String)
        requires
            self.template is Some,
        ensures
            path == self.template->Some_0,
    {
        match &self.template {
            Some(path) => path.clone(),
            None => String::new(),
        }
    }

    /// The path of the parameter file.
    pub fn get_parameter_file_path(&self) -> (path: String)
        requires
            self.parameter is Some,
        ensures
            path == self.parameter->Some_0,
    {
        match &self.parameter {
            Some(path) => path.clone(),
            None => String::new(),
        }
    }

    /// The path of the output file.
    pub fn get_output_file_path(&self) -> (path: String)
        requires
            self.output is Some,
        ensures
            path == self.output->Some_0,
    {
        match &self.output {
            Some(path) => path.clone(),
            None => String::new(),
        }
    }

    /// Splits `key=value` at its first `=` into the key and the value; the
    /// value keeps any further `=`.
    pub fn split_key_value(pair: &str) -> (split: (String, String))
        requires
            pair@.contains('='),
        ensures
            split.0@ == key_of(pair@),
            split.1@ == value_of_pair(pair@),
    {
        let length = pair.unicode_len();
        let mut at: usize = 0;
        proof {
            lemma_first_equals(pair@);
        }
        while at < length && pair.get_char(at) != '='
            invariant
                at <= length,
                length == pair@.len(),
                forall|i: int| 0 <= i < at ==> pair@[i] != '=',
                first_equals(pair@) < pair@.len(),
                pair@[first_equals(pair@)] == '=',
                forall|i: int| 0 <= i < first_equals(pair@) ==> pair@[i] != '=',
            decreases length - at,
        {
            at = at + 1;
        }
        assert(at == first_equals(pair@));
        let key = pair.substring_char(0, at).to_owned();
        let value = pair.substring_char(at + 1, length).to_owned();
        (key, value)
    }

    /// The parameters given on the command line, in their order, each value
    /// a JSON string.
    pub fn make_parameters_from_params(&self) -> (parameters: Parameters)
        requires
            forall|i: int|
                0 <= i < self.params@.len() ==> (#[trigger] self.params@[i])@.contains('='),
        ensures
            given_by(parameters.map@, self.params@),
    {
        let mut map: Vec<(String, JsonValue)> = Vec::new();
        let mut i: usize = 0;
        while i < self.params.len()
            invariant
                i <= self.params@.len(),
                forall|j: int|
                    0 <= j < self.params@.len() ==> (#[trigger] self.params@[j])@.contains('='),
                given_by(map@, self.params@.take(i as int)),
            decreases self.params@.len() - i,
        {
            assert(self.params@[i as int]@.contains('='));
            let (key, value) = Args::split_key_value(self.params[i].as_str());
            map.push((key, JsonValue::Text(value)));
            i = i + 1;
        }
        assert(self.params@.take(i as int) == self.params@);
        Parameters::new_with_map(map)
    }

    /// The parameters of a run: those read from the parameter file, where
    /// one is named, followed by those given on the command line, so that
    /// the command line overrides the file.
    pub fn get_parameters(&self, from_file: Option<Parameters>) -> (parameters: Parameters)
        requires
            forall|i: int|
                0 <= i < self.params@.len() ==> (#[trigger] self.params@[i])@.contains('='),
            is_given(self.parameter) ==> from_file is Some,
        ensures
            ({
                let read = if is_given(self.parameter) {
                    from_file->Some_0.map@
                } else {
                    Seq::empty()
                };
                &&& parameters.map@.take(read.len() as int) == read
                &&& given_by(parameters.map@.skip(read.len() as int), self.params@)
            }),
    {
        let mut parameters = if self.is_parameter_passed() {
            match from_file {
                Some(read) => read,
                None => Parameters::new(),
            }
        } else {
            Parameters::new()
        };
        let ghost first = parameters.map@;
        let mut given = self.make_parameters_from_params();
        let ghost second = given.map@;
        parameters.map.append(&mut given.map);
        proof {
            assert(parameters.map@ == first + second);
            assert(parameters.map@.take(first.len() as int) =~= first);
            assert(parameters.map@.skip(first.len() as int) =~= second);
        }
        parameters
    }
}

} // verus!
