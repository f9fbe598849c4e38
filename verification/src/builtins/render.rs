//! Rendering as a callable: `render`.

use crate::builtins::builtin::BuiltinFunction;
use crate::sandbox::LuaValue;
use crate::session::{render_relation, Mll, MllView, TagOutcome};
use vstd::prelude::*;

verus! {

/// The callable `render`: a template rendered against a table.
pub struct Render;

/// The view of the session that a callable starts for `template`.
pub open spec fn started(template: Seq<char>) -> MllView {
    MllView {
        template,
        pre_process_script: Seq::empty(),
        tags: Seq::empty(),
        processed: Set::empty(),
    }
}

/// Renders `template_content` in a session of its own against `params`.
pub fn render_with_table(template_content: String, params: &LuaValue) -> (rendered: Result<
    String,
    String,
>)
    ensures
        exists|after: MllView, names: Seq<Seq<char>>, outcomes: Seq<TagOutcome>|
            render_relation(
                started(template_content@),
                after,
                params,
                rendered,
                names,
                outcomes,
            ),
{
    let mut mll = Mll::new();
    mll.set_template(template_content);
    let ghost before = mll@;
    let rendered = mll.render(params);
    proof {
        let (names, outcomes) = choose|names: Seq<Seq<char>>, outcomes: Seq<TagOutcome>|
            render_relation(before, mll@, params, rendered, names, outcomes);
        assert(render_relation(started(template_content@), mll@, params, rendered, names, outcomes));
    }
    rendered
}

/// Renders `template_content` in a session of its own after running
/// `params_content` as its pre-process script.
pub fn render_with_script(template_content: String, params_content: &str) -> (rendered: Result<
    String,
    String,
>)
    ensures
        rendered is Err || exists|
            table: LuaValue,
            after: MllView,
            names: Seq<Seq<char>>,
            outcomes: Seq<TagOutcome>,
        |
            render_relation(
                started(template_content@),
                after,
                &table,
                rendered,
                names,
                outcomes,
            ),
{
    let mut mll = Mll::new();
    mll.set_template(template_content);
    let ghost before = mll@;
    let rendered = mll.render_with_lua(params_content);
    proof {
        if rendered is Ok {
            let (table, names, outcomes) = choose|
                table: LuaValue,
                names: Seq<Seq<char>>,
                outcomes: Seq<TagOutcome>,
            |
                render_relation(before, mll@, &table, rendered, names, outcomes);
            assert(render_relation(
                started(template_content@),
                mll@,
                &table,
                rendered,
                names,
                outcomes,
            ));
        }
    }
    rendered
}

/// Calls `mlua::Lua::create_function` on a closure that holds the table it
/// is handed together with its interpreter, hands a template and the table
/// to [`render_with_table`] and gives back what it returns.
#[verifier::external_body]
fn render_function(lua: &mlua::Lua) -> mlua::Function {
    lua.create_function(|lua, (template, params): (String, mlua::Table)| {
        let held = LuaValue { lua: lua.clone(), value: mlua::Value::Table(params) };
        Ok(render_with_table(template, &held))
    }).unwrap()
}

impl BuiltinFunction for Render {
    fn get_name(&self) -> (name: &str)
        ensures
            name@ == "render"@,
    {
        "render"
    }

    fn get_function(&self, lua: &mlua::Lua) -> mlua::Function {
        render_function(lua)
    }
}

} // verus!
