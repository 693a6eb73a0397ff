//! Custom command templates: the configured name/argument pairs and the
//! choice the user makes among them.

use vstd::prelude::*;

use crate::options::push_deep;

verus! {

/// One named command template from the configuration.
#[derive(Debug, Clone, PartialEq)]
pub struct CustomCommand {
    pub name: String,
    pub value: String,
}

/// The names of a command sequence.
pub open spec fn command_names(cmds: Seq<CustomCommand>) -> Seq<Seq<char>> {
    cmds.map_values(|c: CustomCommand| c.name@)
}

/// The labels offered for the command choice: the no-command entry
/// first, then each configured command's name in order.
pub open spec fn command_labels_spec(cmds: Seq<CustomCommand>) -> Seq<Seq<char>> {
    seq!["No Command"@] + command_names(cmds)
}

/// Lists the labels for the command choice.
pub fn command_choice_labels(cmds: &Vec<CustomCommand>) -> (r: Vec<String>)
    ensures
        r.deep_view() == command_labels_spec(cmds@),
{
    let mut r: Vec<String> = Vec::new();
    push_deep(&mut r, String::from_str("No Command"));
    let mut i: usize = 0;
    proof {
        assert(r.deep_view() =~~= seq!["No Command"@] + command_names(cmds@.take(0)));
    }
    while i < cmds.len()
        invariant
            0 <= i <= cmds@.len(),
            r.deep_view() == seq!["No Command"@] + command_names(cmds@.take(i as int)),
        decreases cmds@.len() - i,
    {
        push_deep(&mut r, cmds[i].name.clone());
        proof {
            assert(cmds@.take(i + 1) =~= cmds@.take(i as int).push(cmds@[i as int]));
            assert(r.deep_view() =~~= seq!["No Command"@] + command_names(cmds@.take(i + 1)));
        }
        i = i + 1;
    }
    proof {
        assert(cmds@.take(cmds@.len() as int) =~= cmds@);
    }
    r
}

/// The command text a selection stands for: the no-command slot and any
/// slot beyond the list mean no command at all.
pub open spec fn selected_command_spec(cmds: Seq<CustomCommand>, selection: int) -> Seq<char> {
    if selection > 0 && selection - 1 < cmds.len() {
        cmds[selection - 1].value@
    } else {
        Seq::empty()
    }
}

/// Resolves the chosen slot to its command text, empty where none is
/// chosen.
pub fn selected_command(cmds: &Vec<CustomCommand>, selection: i32) -> (r: String)
    ensures
        r@ == selected_command_spec(cmds@, selection as int),
{
    if selection > 0 && ((selection - 1) as usize) < cmds.len() {
        cmds[(selection - 1) as usize].value.clone()
    } else {
        String::new()
    }
}

} // verus!
