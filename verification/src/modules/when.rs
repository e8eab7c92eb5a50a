//! The condition of a task.

use crate::context::{Binding, Context};
use crate::text::{opt_view, same_text};
use crate::utils::{render_spec, replace_placeholders, RenderError, RenderErrorModel};
use vstd::prelude::*;
use vstd::string::*;

verus! {

/// The template that stands for a condition: it expands to `true` where the condition
/// holds and to `false` where it does not.
pub open spec fn condition_template(condition: Seq<char>) -> Seq<char> {
    "{% if "@ + condition + " %}true{% else %}false{% endif %}"@
}

/// Whether a task with the condition `condition` runs in the context `vars`: always where
/// there is no condition, and else unless the condition's template expands to exactly
/// `false`.
pub open spec fn when_spec(condition: Option<Seq<char>>, vars: Seq<Binding>) -> Result<
    bool,
    RenderErrorModel,
> {
    match condition {
        None => Ok(true),
        Some(c) => match render_spec(condition_template(c), vars) {
            Ok(text) => Ok(text != "false"@),
            Err(e) => Err(e),
        },
    }
}

/// The model of a decision.
pub open spec fn decision_view(r: Result<bool, RenderError>) -> Result<bool, RenderErrorModel> {
    match r {
        Ok(b) => Ok(b),
        Err(e) => Err(e@),
    }
}

/// Decides whether a task runs.
pub fn process(condition: &Option<String>, vars: &Context) -> (r: Result<bool, RenderError>)
    ensures
        decision_view(r) == when_spec(opt_view(*condition), vars@),
{
    match condition {
        None => Ok(true),
        Some(cond) => {
            let mut template = "{% if ".to_owned();
            template.append(cond.as_str());
            template.append(" %}true{% else %}false{% endif %}");
            match replace_placeholders(template.as_str(), vars) {
                Ok(text) => Ok(!same_text(text.as_str(), "false")),
                Err(e) => Err(e),
            }
        },
    }
}

} // verus!
