//! The widget markup: one button per workspace inside one container, on a
//! single line.

use vstd::prelude::*;
use vstd::string::*;
use crate::text::{decimal, decimal_string, trim_newlines, without_newlines};
use crate::visibility::{token_of, Visibility};

verus! {

/// The markup of one button: its class carries the state's token, its click
/// action switches to workspace `key`, and it shows `label`.
pub open spec fn button(key: usize, label: Seq<char>, vis: Visibility) -> Seq<char> {
    "(button   :class 'i3wm-workspace-"@ + token_of(vis)
        + "'\n          :onclick 'i3-msg -t run_command workspace "@ + decimal(key as nat)
        + "'\n          '"@ + label + "')"@
}

/// The widgets of `ws` one after the other.
pub open spec fn joined(ws: Seq<Seq<char>>) -> Seq<char>
    decreases ws.len(),
{
    if ws.len() == 0 {
        Seq::empty()
    } else {
        joined(ws.drop_last()) + ws.last()
    }
}

/// The container around `ws`, before line breaks are taken out.
pub open spec fn container(ws: Seq<Seq<char>>) -> Seq<char> {
    "(box :class 'i3wm-workspaces'\n     :orientation 'h'\n     :spacing 5\n     :space-evenly 'false'\n\n"@
        + joined(ws) + ")\n"@
}

/// The single line that is written for the widgets `ws`.
pub open spec fn strip_line(ws: Seq<Seq<char>>) -> Seq<char> {
    without_newlines(container(ws))
}

/// Renders the button of workspace `num` with the label `name` in the state `vis`.
pub fn get_button(num: &usize, name: &str, vis: Visibility) -> (widget: String)
    ensures
        widget@ == button(*num, name@, vis),
{
    let mut widget = String::from_str("(button   :class 'i3wm-workspace-");
    widget.append(vis.token());
    widget.append("'\n          :onclick 'i3-msg -t run_command workspace ");
    let number = decimal_string(*num);
    widget.append(number.as_str());
    widget.append("'\n          '");
    widget.append(name);
    widget.append("')");
    widget
}

/// Renders the container around the widgets `ws`, in their order, as one line.
pub fn render_line(ws: &Vec<String>) -> (line: String)
    ensures
        line@ == strip_line(Seq::new(ws@.len(), |i: int| ws@[i]@)),
{
    let ghost all = Seq::new(ws@.len(), |i: int| ws@[i]@);
    let mut line = String::from_str(
        "(box :class 'i3wm-workspaces'\n     :orientation 'h'\n     :spacing 5\n     :space-evenly 'false'\n\n",
    );
    let ghost head = line@;
    let mut i: usize = 0;
    assert(all.take(0) =~= Seq::<Seq<char>>::empty());
    while i < ws.len()
        invariant
            i <= ws@.len(),
            all == Seq::new(ws@.len(), |i: int| ws@[i]@),
            line@ == head + joined(all.take(i as int)),
        decreases ws@.len() - i,
    {
        proof {
            assert(all.take(i + 1).drop_last() =~= all.take(i as int));
            assert(all.take(i + 1).last() == ws@[i as int]@);
            assert(head + joined(all.take(i + 1)) =~= head + joined(all.take(i as int))
                + ws@[i as int]@);
        }
        line.append(ws[i].as_str());
        i += 1;
    }
    assert(all.take(ws@.len() as int) =~= all);
    line.append(")\n");
    trim_newlines(&mut line);
    line
}

} // verus!
