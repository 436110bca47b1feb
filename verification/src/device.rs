//! The compute device: the stored choice, and the GPUs that the driver reports.

use crate::json::{
    json_member, json_parsed, json_pretty, json_text_object, json_view, json_written, parse_json,
    text_object, JsonView,
};
use crate::text::{
    law_lines_split, law_one_line, list_trimmed_lines, same_text, texts, trimmed, trimmed_lines,
};
use vstd::prelude::*;
use vstd::string::StringExecFns;
use vstd::utf8::{decode_utf8, valid_utf8};

verus! {

/// The name of the file that holds the choice.
pub const CONFIG_FILE: &'static str = "ml-device.json";

/// The choice that a JSON value holds: the text under `selection`, if it is an object with one.
pub open spec fn selection_member(view: JsonView) -> Option<Seq<char>> {
    match view {
        JsonView::Object(members) => if members.dom().contains("selection"@) {
            match members["selection"@] {
                JsonView::Text(text) => Some(text),
                _ => None,
            }
        } else {
            None
        },
        _ => None,
    }
}

/// The choice that the contents of the file come to. A file that cannot be read, `None`, or
/// that holds no choice leaves it to the program: `AUTO`.
pub open spec fn selected(content: Option<Seq<char>>) -> Seq<char> {
    match content {
        Some(text) => match json_parsed(text) {
            Some(view) => match selection_member(view) {
                Some(selection) => selection,
                None => "AUTO"@,
            },
            None => "AUTO"@,
        },
        None => "AUTO"@,
    }
}

/// The stored choice is the text under `selection`, whatever else the object holds; an object
/// without it, one that holds something else there, and anything that is no object hold none.
pub proof fn law_choice_is_one_member(members: Map<Seq<char>, JsonView>, text: Seq<char>)
    ensures
        selection_member(
            JsonView::Object(members.insert("selection"@, JsonView::Text(text))),
        ) == Some(text),
        selection_member(JsonView::Object(members.insert("selection"@, JsonView::Other))) is None,
        selection_member(
            JsonView::Object(members.insert("selection"@, JsonView::Object(members))),
        ) is None,
        selection_member(JsonView::Object(members.remove("selection"@))) is None,
        selection_member(JsonView::Text(text)) is None,
        selection_member(JsonView::Other) is None,
{
}

/// Contents that hold a choice come to it, and all others, those that cannot be read or parsed
/// among them, to `AUTO`.
pub proof fn law_no_choice_means_auto(content: Option<Seq<char>>)
    ensures
        match content {
            Some(text) => match json_parsed(text) {
                Some(view) => match selection_member(view) {
                    Some(choice) => selected(content) == choice,
                    None => selected(content) == "AUTO"@,
                },
                None => selected(content) == "AUTO"@,
            },
            None => selected(content) == "AUTO"@,
        },
{
}

/// The choice that a JSON value holds, if it holds one.
pub fn selection_in(value: &serde_json::Value) -> (r: Option<String>)
    ensures
        match r {
            Some(text) => selection_member(json_view(*value)) == Some(text@),
            None => selection_member(json_view(*value)) is None,
        },
{
    match json_member(value, "selection") {
        Some(member) => match member.as_str() {
            Some(text) => Some(text.to_owned()),
            None => None,
        },
        None => None,
    }
}

/// The choice that was found, or the one for where none was.
pub fn selection_or_auto(found: Option<String>) -> (r: String)
    ensures
        r@ == (match found {
            Some(text) => text@,
            None => "AUTO"@,
        }),
{
    match found {
        Some(text) => text,
        None => String::from_str("AUTO"),
    }
}

/// Reads the choice out of the contents of the file, `None` where it could not be read.
pub fn get_ml_device_selection(content: Option<&str>) -> (r: String)
    ensures
        r@ == selected(
            match content {
                Some(text) => Some(text@),
                None => None,
            },
        ),
{
    let found = match content {
        Some(text) => match parse_json(text) {
            Ok(value) => selection_in(&value),
            Err(_) => None,
        },
        None => None,
    };
    selection_or_auto(found)
}

/// The contents of the file for a choice. Reading them gives the choice back.
pub fn set_ml_device_config(selection: &str) -> (r: String)
    ensures
        r@ == json_written("selection"@, selection@),
        json_parsed(r@) == Some(text_object("selection"@, selection@)),
        selected(Some(r@)) == selection@,
{
    proof {
        reveal_strlit("selection");
        let view = text_object("selection"@, selection@);
        assert(view->Object_0.dom().contains("selection"@));
    }
    let value = json_text_object("selection", selection);
    match json_pretty(&value) {
        Ok(text) => text,
        Err(_) => String::new(),
    }
}

/// What went wrong when a choice was stored.
#[derive(Clone, Copy, PartialEq, Eq, Structural, Debug)]
pub enum SaveFault {
    /// The data directory could not be made.
    MakeDir,
    /// The file could not be written.
    Write,
}

/// What the user is told when a choice could not be stored.
pub fn save_error(fault: SaveFault, detail: &str) -> (r: String)
    ensures
        r@ == (match fault {
            SaveFault::MakeDir => "Failed to create APP_ROOT directory: "@,
            SaveFault::Write => "Failed to write ml-device.json: "@,
        }) + detail@,
{
    let mut text = match fault {
        SaveFault::MakeDir => String::from_str("Failed to create APP_ROOT directory: "),
        SaveFault::Write => String::from_str("Failed to write ml-device.json: "),
    };
    text.append(detail);
    text
}

/// The device to use: the processor where the command line forces it, else the stored choice.
pub fn requested_device(cpu_forced: bool, content: Option<&str>) -> (r: String)
    ensures
        r@ == (if cpu_forced {
            "CPU"@
        } else {
            selected(
                match content {
                    Some(text) => Some(text@),
                    None => None,
                },
            )
        }),
{
    if cpu_forced {
        String::from_str("CPU")
    } else {
        get_ml_device_selection(content)
    }
}

/// Whether a choice is the processor.
pub fn is_cpu_selection(selection: &str) -> (r: bool)
    ensures
        r == (selection@ == "CPU"@),
{
    same_text(selection, "CPU")
}

/// Calls `std::str::from_utf8`: the text that the bytes encode, `None` where they are not UTF-8.
#[verifier::external_body]
fn utf8_text(bytes: &[u8]) -> (r: Option<&str>)
    ensures
        match r {
            Some(text) => valid_utf8(bytes@) && text@ == decode_utf8(bytes@),
            None => !valid_utf8(bytes@),
        },
{
    match std::str::from_utf8(bytes) {
        Ok(text) => Some(text),
        Err(_) => None,
    }
}

/// The GPUs that the driver's tool reported: the lines of its output that are not blank,
/// without the white space around them. Where the tool failed or its output is no text, there
/// are none.
pub open spec fn reported_gpus(success: bool, output: Seq<u8>) -> Seq<Seq<char>> {
    if success && valid_utf8(output) {
        trimmed_lines(decode_utf8(output))
    } else {
        Seq::empty()
    }
}

/// Where the driver's tool failed or wrote no text, no GPU is reported. Otherwise a blank line adds
/// none, any other line adds one, and what stands on further lines does not bear on it.
pub proof fn law_gpus_come_line_by_line(output: Seq<u8>, first: Seq<char>, rest: Seq<char>)
    ensures
        reported_gpus(false, output) == Seq::<Seq<char>>::empty(),
        !valid_utf8(output) ==> reported_gpus(true, output) == Seq::<Seq<char>>::empty(),
        valid_utf8(output) && decode_utf8(output) == first + seq!['\n'] + rest && !first.contains(
            '\n',
        ) ==> reported_gpus(true, output) == (if trimmed(first).len() > 0 {
            seq![trimmed(first)]
        } else {
            Seq::empty()
        }) + trimmed_lines(rest),
        valid_utf8(output) && decode_utf8(output) == first && !first.contains('\n')
            ==> reported_gpus(true, output) == (if trimmed(first).len() > 0 {
            seq![trimmed(first)]
        } else {
            Seq::empty()
        }),
        valid_utf8(output) && decode_utf8(output) == first + seq!['\n'] + rest ==> reported_gpus(
            true,
            output,
        ) == trimmed_lines(first) + trimmed_lines(rest),
{
    law_lines_split(first, rest);
    if !first.contains('\n') {
        law_lines_split(first, rest);
        law_one_line(first);
    }
}

/// The GPUs that the driver's tool reported, numbered in order.
pub fn enumerate_cuda_devices(success: bool, output: &Vec<u8>) -> (r: Vec<(usize, String)>)
    ensures
        r@.len() == reported_gpus(success, output@).len(),
        forall|i: int|
            0 <= i < r@.len() ==> (#[trigger] r@[i]).0 == i && r@[i].1@ == reported_gpus(
                success,
                output@,
            )[i],
{
    let mut r: Vec<(usize, String)> = Vec::new();
    if !success {
        return r;
    }
    match utf8_text(output.as_slice()) {
        None => r,
        Some(text) => {
            let names = list_trimmed_lines(text);
            let ghost all = reported_gpus(success, output@);
            assert(texts(names@) == all);
            let mut i: usize = 0;
            while i < names.len()
                invariant
                    i <= names@.len(),
                    texts(names@) == all,
                    r@.len() == i,
                    forall|j: int| 0 <= j < i ==> (#[trigger] r@[j]).0 == j && r@[j].1@ == all[j],
                decreases names@.len() - i,
            {
                assert(texts(names@)[i as int] == names@[i as int]@);
                r.push((i, names[i].clone()));
                i = i + 1;
            }
            assert(texts(names@).len() == names@.len());
            r
        },
    }
}

} // verus!
