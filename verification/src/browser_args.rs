//! The arguments of the browser tools: reading them out of the call's JSON
//! object, and the validation of the DevTools operations' arguments.

use vstd::prelude::*;
use crate::browser::{capability_details, capability_unavailable, failure, failure_document, BrowserToolError, ExecutionResultStatus};
use crate::json::{entries_get, json_text, parse_json, parsed_json, json_as_str, json_entries_view, json_items_view, lemma_items_view, JsonValue, JsonView};
use crate::json_access::{as_array, as_bool, as_object, as_u64, get, value_as_array, value_as_bool, value_as_object, value_as_str, value_as_u64};
use crate::text::{concat, str_eq, str_to_string, trim, trimmed};

verus! {

/// The members of a JSON object.
pub type Members = Seq<(Seq<char>, JsonView)>;

/// The member `name` of an object.
pub open spec fn member(args: Members, name: Seq<char>) -> Option<JsonView> {
    entries_get(args, name)
}

/// The trimmed string member `name`, where it is a string that is not blank.
pub open spec fn optional_string_of(args: Members, name: Seq<char>) -> Option<Seq<char>> {
    match json_as_str(member(args, name)) {
        Some(s) => if trim(s).len() > 0 {
            Some(trim(s))
        } else {
            None
        },
        None => None,
    }
}

/// What is wrong with a snapshot reference object, `None` where it names a
/// positive snapshot revision and an element other than the root.
pub open spec fn target_object_error(target: Members, context: Seq<char>) -> Option<Seq<char>> {
    if !(as_u64(member(target, "snapshot_revision"@)) matches Some(r) && r > 0) {
        Some(context + ".snapshot_revision 必须是正整数"@)
    } else if !(optional_string_of(target, "element_ref"@) matches Some(e) && e != "root"@) {
        Some(context + ".element_ref 必须是有效的快照元素引用"@)
    } else {
        None
    }
}

/// What is wrong with the drag reference `name`.
pub open spec fn nested_target_error(args: Members, name: Seq<char>) -> Option<Seq<char>> {
    match as_object(member(args, name)) {
        None => Some("browser_drag 必须提供 "@ + name + " 快照引用"@),
        Some(target) => target_object_error(target, "browser_drag."@ + name),
    }
}

/// A value a form field can be filled with: a string, a number, a boolean,
/// or an array of strings and numbers.
pub open spec fn fill_value_supported(value: JsonView) -> bool {
    match value {
        JsonView::Str(_) | JsonView::Number(_) | JsonView::Bool(_) => true,
        JsonView::Array(items) => forall|i: int| 0 <= i < items.len()
            ==> (#[trigger] items[i] is Str || items[i] is Number),
        _ => false,
    }
}

/// What is wrong with one field of a form to fill.
pub open spec fn field_error(field: JsonView) -> Option<Seq<char>> {
    match field {
        JsonView::Object(f) => if target_object_error(f, "browser_fill_form.fields"@) is Some {
            target_object_error(f, "browser_fill_form.fields"@)
        } else if member(f, "value"@) is None {
            Some("browser_fill_form.fields 的每一项必须包含 value"@)
        } else if !fill_value_supported(member(f, "value"@)->0) {
            Some("browser_fill_form.fields.value 必须是字符串、数字、布尔值或字符串/数字数组"@)
        } else {
            None
        },
        _ => Some("browser_fill_form.fields 的每一项必须是对象"@),
    }
}

/// What is wrong with the first faulty field, in order.
pub open spec fn fields_error(fields: Seq<JsonView>) -> Option<Seq<char>>
    decreases fields.len(),
{
    if fields.len() == 0 {
        None
    } else if field_error(fields[0]) is Some {
        field_error(fields[0])
    } else {
        fields_error(fields.drop_first())
    }
}

pub open spec fn performance_action(a: Seq<char>) -> bool {
    a == "start"@ || a == "stop"@ || a == "metrics"@ || a == "analyze"@ || a == "profile_start"@
        || a == "profile_stop"@ || a == "coverage_start"@ || a == "coverage_take"@
        || a == "coverage_stop"@
}

pub open spec fn heap_action(a: Seq<char>) -> bool {
    a == "usage"@ || a == "take_snapshot"@ || a == "close_snapshot"@ || a == "compare_snapshots"@
        || a == "summary"@ || a == "details"@ || a == "class_nodes"@ || a == "dominators"@
        || a == "duplicate_strings"@ || a == "edges"@ || a == "object_details"@
        || a == "retainers"@ || a == "retaining_paths"@
}

/// The heap actions that only inspect: all but taking and closing a
/// snapshot.
pub open spec fn heap_read_action(a: Seq<char>) -> bool {
    a == "usage"@ || a == "compare_snapshots"@ || a == "summary"@ || a == "details"@
        || a == "class_nodes"@ || a == "dominators"@ || a == "duplicate_strings"@ || a == "edges"@
        || a == "object_details"@ || a == "retainers"@ || a == "retaining_paths"@
}

pub open spec fn third_party_action(a: Seq<char>) -> bool {
    a == "list"@ || a == "clear"@
}

/// What is wrong with the `action` of a tool that takes one of a set.
pub open spec fn action_error(args: Members, tool: Seq<char>, allowed: spec_fn(Seq<char>) -> bool) -> Option<Seq<char>> {
    match json_as_str(member(args, "action"@)) {
        None => Some(tool + " 必须提供 action"@),
        Some(a) => if allowed(a) {
            None
        } else {
            Some(tool + " 不支持 action: "@ + a)
        },
    }
}

/// The longest expression `browser_evaluate` accepts, in UTF-8 bytes.
pub const EVALUATE_EXPRESSION_LIMIT: usize = 100000;

/// What is wrong with the arguments of a DevTools operation, `None` where
/// they are acceptable. Every such error has the code `invalid_arguments`.
pub open spec fn devtools_arguments_error(operation: Seq<char>, args: Members) -> Option<Seq<char>> {
    if operation == "drag"@ {
        if nested_target_error(args, "source"@) is Some {
            nested_target_error(args, "source"@)
        } else {
            nested_target_error(args, "target"@)
        }
    } else if operation == "fill_form"@ {
        match as_array(member(args, "fields"@)) {
            Some(fields) => if fields.len() > 0 {
                fields_error(fields)
            } else {
                Some("browser_fill_form 必须提供非空 fields 数组"@)
            },
            None => Some("browser_fill_form 必须提供非空 fields 数组"@),
        }
    } else if operation == "performance"@ {
        action_error(args, "browser_performance"@, |a: Seq<char>| performance_action(a))
    } else if operation == "heap"@ {
        action_error(args, "browser_heap"@, |a: Seq<char>| heap_action(a))
    } else if operation == "pwa"@ {
        if json_as_str(member(args, "action"@)) != Some("state"@) {
            Some("browser_pwa 只支持 state 状态审计，不会安装、启动或卸载系统 PWA"@)
        } else {
            None
        }
    } else if operation == "third_party"@ {
        action_error(args, "browser_third_party"@, |a: Seq<char>| third_party_action(a))
    } else if operation == "evaluate"@ {
        match optional_string_of(args, "expression"@) {
            None => Some("browser_evaluate 必须提供非空 expression"@),
            Some(e) => if (vstd::utf8::encode_utf8(e).len() as usize) > EVALUATE_EXPRESSION_LIMIT {
                Some("browser_evaluate.expression 不能超过 100000 个字符"@)
            } else {
                None
            },
        }
    } else if operation == "upload_file"@ {
        if target_object_error(args, "browser_upload_file"@) is Some {
            target_object_error(args, "browser_upload_file"@)
        } else if optional_string_of(args, "file_path"@) is None && !(as_array(member(args, "file_paths"@)) matches Some(paths)
            && 0 < paths.len() <= 20 && forall|i: int| 0 <= i < paths.len() ==> #[trigger] paths[i] is Str) {
            Some("browser_upload_file 必须提供 file_path 或非空 file_paths"@)
        } else {
            None
        }
    } else {
        None
    }
}

/// `optional_string`: the trimmed string member `name`, where it is a
/// string that is not blank.
pub fn optional_string(arguments: &Vec<(String, JsonValue)>, name: &str) -> (r: Option<String>)
    ensures
        crate::text::opt_string_view(r) == optional_string_of(json_entries_view(arguments@), name@),
{
    match value_as_str(get(arguments, name)) {
        Some(s) => {
            let t = trimmed(s);
            if !t.as_str().is_empty() {
                Some(t)
            } else {
                None
            }
        },
        None => None,
    }
}

fn invalid(message: String) -> (e: BrowserToolError)
    ensures
        e.code@ == "invalid_arguments"@,
        e.message@ == message@,
{
    BrowserToolError::with_message("invalid_arguments", message)
}

/// Checks a snapshot reference object.
fn validate_snapshot_target_object(target: &Vec<(String, JsonValue)>, context: &str) -> (r: Result<(), BrowserToolError>)
    ensures
        match r {
            Ok(()) => target_object_error(json_entries_view(target@), context@) is None,
            Err(e) => target_object_error(json_entries_view(target@), context@) == Some(e.message@)
                && e.code@ == "invalid_arguments"@,
        },
{
    let revision = value_as_u64(get(target, "snapshot_revision"));
    let revision_ok = match revision {
        Some(r) => r > 0,
        None => false,
    };
    if !revision_ok {
        return Err(invalid(concat(context, ".snapshot_revision 必须是正整数")));
    }
    let element_ref = optional_string(target, "element_ref");
    let element_ok = match &element_ref {
        Some(e) => !str_eq(e.as_str(), "root"),
        None => false,
    };
    if !element_ok {
        return Err(invalid(concat(context, ".element_ref 必须是有效的快照元素引用")));
    }
    Ok(())
}

/// Checks the drag reference `name`.
fn validate_nested_snapshot_target(arguments: &Vec<(String, JsonValue)>, name: &str) -> (r: Result<(), BrowserToolError>)
    ensures
        match r {
            Ok(()) => nested_target_error(json_entries_view(arguments@), name@) is None,
            Err(e) => nested_target_error(json_entries_view(arguments@), name@) == Some(e.message@)
                && e.code@ == "invalid_arguments"@,
        },
{
    match value_as_object(get(arguments, name)) {
        None => {
            let head = concat("browser_drag 必须提供 ", name);
            Err(invalid(concat(head.as_str(), " 快照引用")))
        },
        Some(target) => {
            let context = concat("browser_drag.", name);
            validate_snapshot_target_object(target, context.as_str())
        },
    }
}

/// Whether a value can fill a form field.
pub fn is_supported_fill_value(value: &JsonValue) -> (r: bool)
    ensures
        r == fill_value_supported(value@),
{
    match value {
        JsonValue::Str(_) | JsonValue::Number(_) | JsonValue::Bool(_) => true,
        JsonValue::Array(items) => {
            proof {
                lemma_items_view(items@);
            }
            let mut i: usize = 0;
            while i < items.len()
                invariant
                    i <= items@.len(),
                    value@ == JsonView::Array(json_items_view(items@)),
                    json_items_view(items@).len() == items@.len(),
                    forall|k: int| 0 <= k < items@.len() ==> #[trigger] json_items_view(items@)[k] == items@[k]@,
                    forall|k: int| 0 <= k < i ==> (#[trigger] json_items_view(items@)[k] is Str
                        || json_items_view(items@)[k] is Number),
                decreases items@.len() - i,
            {
                let ok = match &items[i] {
                    JsonValue::Str(_) | JsonValue::Number(_) => true,
                    _ => false,
                };
                if !ok {
                    assert(!(json_items_view(items@)[i as int] is Str || json_items_view(items@)[i as int] is Number));
                    return false;
                }
                i = i + 1;
            }
            true
        },
        JsonValue::Null | JsonValue::Object(_) => false,
    }
}

/// Checks one field of a form to fill.
fn validate_fill_field(field: &JsonValue) -> (r: Result<(), BrowserToolError>)
    ensures
        match r {
            Ok(()) => field_error(field@) is None,
            Err(e) => field_error(field@) == Some(e.message@) && e.code@ == "invalid_arguments"@,
        },
{
    match field {
        JsonValue::Object(f) => {
            validate_snapshot_target_object(f, "browser_fill_form.fields")?;
            match get(f, "value") {
                None => Err(invalid(str_to_string("browser_fill_form.fields 的每一项必须包含 value"))),
                Some(value) => {
                    if !is_supported_fill_value(value) {
                        Err(invalid(str_to_string("browser_fill_form.fields.value 必须是字符串、数字、布尔值或字符串/数字数组")))
                    } else {
                        Ok(())
                    }
                },
            }
        },
        _ => Err(invalid(str_to_string("browser_fill_form.fields 的每一项必须是对象"))),
    }
}

/// Checks the `action` of a tool that takes one of a set.
fn validate_action(
    arguments: &Vec<(String, JsonValue)>,
    tool: &str,
    allowed: &Vec<&str>,
    Ghost(allowed_spec): Ghost<spec_fn(Seq<char>) -> bool>,
) -> (r: Result<(), BrowserToolError>)
    requires
        forall|a: Seq<char>| #[trigger] allowed_spec(a) <==> exists|i: int| 0 <= i < allowed@.len() && allowed@[i]@ == a,
    ensures
        match r {
            Ok(()) => action_error(json_entries_view(arguments@), tool@, allowed_spec) is None,
            Err(e) => action_error(json_entries_view(arguments@), tool@, allowed_spec) == Some(e.message@)
                && e.code@ == "invalid_arguments"@,
        },
{
    match value_as_str(get(arguments, "action")) {
        None => Err(invalid(concat(tool, " 必须提供 action"))),
        Some(action) => {
            let mut i: usize = 0;
            while i < allowed.len()
                invariant
                    i <= allowed@.len(),
                    json_as_str(member(json_entries_view(arguments@), "action"@)) == Some(action@),
                    forall|a: Seq<char>| #[trigger] allowed_spec(a) <==> exists|i: int| 0 <= i < allowed@.len() && allowed@[i]@ == a,
                    forall|k: int| 0 <= k < i ==> (#[trigger] allowed@[k])@ != action@,
                decreases allowed@.len() - i,
            {
                if str_eq(allowed[i], action) {
                    assert(allowed_spec(action@));
                    return Ok(());
                }
                i = i + 1;
            }
            let head = concat(tool, " 不支持 action: ");
            Err(invalid(concat(head.as_str(), action)))
        },
    }
}

/// Checks the arguments of a DevTools operation; an operation with no
/// rules for its arguments accepts any.
pub fn validate_devtools_arguments(operation: &str, arguments: &Vec<(String, JsonValue)>) -> (r: Result<(), BrowserToolError>)
    ensures
        match r {
            Ok(()) => devtools_arguments_error(operation@, json_entries_view(arguments@)) is None,
            Err(e) => devtools_arguments_error(operation@, json_entries_view(arguments@)) == Some(e.message@)
                && e.code@ == "invalid_arguments"@,
        },
{
    let ghost args = json_entries_view(arguments@);
    if str_eq(operation, "drag") {
        validate_nested_snapshot_target(arguments, "source")?;
        validate_nested_snapshot_target(arguments, "target")?;
        assert(devtools_arguments_error(operation@, args) is None);
        Ok(())
    } else if str_eq(operation, "fill_form") {
        let fields = match value_as_array(get(arguments, "fields")) {
            Some(fields) => fields,
            None => {
                return Err(invalid(str_to_string("browser_fill_form 必须提供非空 fields 数组")));
            },
        };
        proof {
            lemma_items_view(fields@);
        }
        if fields.len() == 0 {
            return Err(invalid(str_to_string("browser_fill_form 必须提供非空 fields 数组")));
        }
        let ghost fv = json_items_view(fields@);
        assert(fv.skip(0) == fv);
        let mut i: usize = 0;
        while i < fields.len()
            invariant
                i <= fields@.len(),
                operation@ == "fill_form"@,
                operation@ != "drag"@,
                args == json_entries_view(arguments@),
                as_array(member(args, "fields"@)) == Some(fv),
                fv.len() > 0,
                fv == json_items_view(fields@),
                fv.len() == fields@.len(),
                forall|k: int| 0 <= k < fields@.len() ==> #[trigger] fv[k] == fields@[k]@,
                fields_error(fv) == fields_error(fv.skip(i as int)),
            decreases fields@.len() - i,
        {
            assert(fv.skip(i as int)[0] == fv[i as int]);
            assert(fv.skip(i as int).drop_first() == fv.skip(i + 1));
            validate_fill_field(&fields[i])?;
            i = i + 1;
        }
        assert(fv.skip(fields@.len() as int).len() == 0);
        assert(devtools_arguments_error(operation@, args) is None);
        Ok(())
    } else if str_eq(operation, "performance") {
        let allowed = vec![
            "start", "stop", "metrics", "analyze", "profile_start", "profile_stop",
            "coverage_start", "coverage_take", "coverage_stop",
        ];
        proof {
            reveal_strlit("start");
        }
        assert forall|a: Seq<char>| #[trigger] performance_action(a) <==> exists|i: int| 0 <= i < allowed@.len() && allowed@[i]@ == a by {
            if performance_action(a) {
                if a == "start"@ { assert(allowed@[0]@ == a); }
                else if a == "stop"@ { assert(allowed@[1]@ == a); }
                else if a == "metrics"@ { assert(allowed@[2]@ == a); }
                else if a == "analyze"@ { assert(allowed@[3]@ == a); }
                else if a == "profile_start"@ { assert(allowed@[4]@ == a); }
                else if a == "profile_stop"@ { assert(allowed@[5]@ == a); }
                else if a == "coverage_start"@ { assert(allowed@[6]@ == a); }
                else if a == "coverage_take"@ { assert(allowed@[7]@ == a); }
                else { assert(allowed@[8]@ == a); }
            }
        }
        validate_action(arguments, "browser_performance", &allowed, Ghost(|a: Seq<char>| performance_action(a)))
    } else if str_eq(operation, "heap") {
        let allowed = vec![
            "usage", "take_snapshot", "close_snapshot", "compare_snapshots", "summary", "details",
            "class_nodes", "dominators", "duplicate_strings", "edges", "object_details",
            "retainers", "retaining_paths",
        ];
        assert forall|a: Seq<char>| #[trigger] heap_action(a) <==> exists|i: int| 0 <= i < allowed@.len() && allowed@[i]@ == a by {
            if heap_action(a) {
                if a == "usage"@ { assert(allowed@[0]@ == a); }
                else if a == "take_snapshot"@ { assert(allowed@[1]@ == a); }
                else if a == "close_snapshot"@ { assert(allowed@[2]@ == a); }
                else if a == "compare_snapshots"@ { assert(allowed@[3]@ == a); }
                else if a == "summary"@ { assert(allowed@[4]@ == a); }
                else if a == "details"@ { assert(allowed@[5]@ == a); }
                else if a == "class_nodes"@ { assert(allowed@[6]@ == a); }
                else if a == "dominators"@ { assert(allowed@[7]@ == a); }
                else if a == "duplicate_strings"@ { assert(allowed@[8]@ == a); }
                else if a == "edges"@ { assert(allowed@[9]@ == a); }
                else if a == "object_details"@ { assert(allowed@[10]@ == a); }
                else if a == "retainers"@ { assert(allowed@[11]@ == a); }
                else { assert(allowed@[12]@ == a); }
            }
        }
        validate_action(arguments, "browser_heap", &allowed, Ghost(|a: Seq<char>| heap_action(a)))
    } else if str_eq(operation, "pwa") {
        let is_state = match value_as_str(get(arguments, "action")) {
            Some(a) => str_eq(a, "state"),
            None => false,
        };
        if !is_state {
            return Err(invalid(str_to_string("browser_pwa 只支持 state 状态审计，不会安装、启动或卸载系统 PWA")));
        }
        Ok(())
    } else if str_eq(operation, "third_party") {
        let allowed = vec!["list", "clear"];
        assert forall|a: Seq<char>| #[trigger] third_party_action(a) <==> exists|i: int| 0 <= i < allowed@.len() && allowed@[i]@ == a by {
            if third_party_action(a) {
                if a == "list"@ { assert(allowed@[0]@ == a); } else { assert(allowed@[1]@ == a); }
            }
        }
        validate_action(arguments, "browser_third_party", &allowed, Ghost(|a: Seq<char>| third_party_action(a)))
    } else if str_eq(operation, "evaluate") {
        match optional_string(arguments, "expression") {
            None => Err(invalid(str_to_string("browser_evaluate 必须提供非空 expression"))),
            Some(expression) => {
                if expression.as_str().len() > EVALUATE_EXPRESSION_LIMIT {
                    return Err(invalid(str_to_string("browser_evaluate.expression 不能超过 100000 个字符")));
                }
                assert(devtools_arguments_error(operation@, args) is None);
                Ok(())
            },
        }
    } else if str_eq(operation, "upload_file") {
        validate_snapshot_target_object(arguments, "browser_upload_file")?;
        let file_path = optional_string(arguments, "file_path");
        let mut paths_ok = false;
        match value_as_array(get(arguments, "file_paths")) {
            Some(paths) => {
                proof {
                    lemma_items_view(paths@);
                }
                if paths.len() > 0 && paths.len() <= 20 {
                    let mut all_str = true;
                    let mut i: usize = 0;
                    while i < paths.len()
                        invariant
                            i <= paths@.len(),
                            json_items_view(paths@).len() == paths@.len(),
                            forall|k: int| 0 <= k < paths@.len() ==> #[trigger] json_items_view(paths@)[k] == paths@[k]@,
                            all_str == forall|k: int| 0 <= k < i ==> #[trigger] json_items_view(paths@)[k] is Str,
                        decreases paths@.len() - i,
                    {
                        let is_str = match &paths[i] {
                            JsonValue::Str(_) => true,
                            _ => false,
                        };
                        assert(is_str == json_items_view(paths@)[i as int] is Str);
                        all_str = all_str && is_str;
                        i = i + 1;
                    }
                    paths_ok = all_str;
                }
            },
            None => {},
        }
        if file_path.is_none() && !paths_ok {
            return Err(invalid(str_to_string("browser_upload_file 必须提供 file_path 或非空 file_paths")));
        }
        assert(devtools_arguments_error(operation@, args) is None);
        Ok(())
    } else {
        assert(devtools_arguments_error(operation@, args) is None);
        Ok(())
    }
}

/// `参数 {name} 必须是正整数` unless the member `name` is a non-negative
/// integer that fits in 32 bits.
pub open spec fn u32_arg_of(args: Members, name: Seq<char>) -> Option<u32> {
    match as_u64(member(args, name)) {
        Some(v) => if v <= u32::MAX {
            Some(v as u32)
        } else {
            None
        },
        None => None,
    }
}

/// The member `name` as a 32-bit unsigned integer.
pub fn u32_arg(arguments: &Vec<(String, JsonValue)>, name: &str) -> (r: Result<u32, BrowserToolError>)
    ensures
        match r {
            Ok(v) => u32_arg_of(json_entries_view(arguments@), name@) == Some(v),
            Err(e) => u32_arg_of(json_entries_view(arguments@), name@) is None
                && e.code@ == "invalid_arguments"@
                && e.message@ == "参数 "@ + name@ + " 必须是正整数"@,
        },
{
    match value_as_u64(get(arguments, name)) {
        Some(v) => {
            if v <= 4294967295 {
                return Ok(v as u32);
            }
        },
        None => {},
    }
    let head = concat("参数 ", name);
    Err(invalid(concat(head.as_str(), " 必须是正整数")))
}

/// The trimmed, non-blank string member `name`.
pub fn string_arg(arguments: &Vec<(String, JsonValue)>, name: &str) -> (r: Result<String, BrowserToolError>)
    ensures
        match r {
            Ok(v) => optional_string_of(json_entries_view(arguments@), name@) == Some(v@),
            Err(e) => optional_string_of(json_entries_view(arguments@), name@) is None
                && e.code@ == "invalid_arguments"@
                && e.message@ == "缺少参数 "@ + name@,
        },
{
    match optional_string(arguments, name) {
        Some(v) => Ok(v),
        None => Err(invalid(concat("缺少参数 ", name))),
    }
}

/// The boolean member `name`, or `default` where there is none.
pub fn bool_arg(arguments: &Vec<(String, JsonValue)>, name: &str, default: bool) -> (r: bool)
    ensures
        r == match as_bool(member(json_entries_view(arguments@), name@)) {
            Some(b) => b,
            None => default,
        },
{
    match value_as_bool(get(arguments, name)) {
        Some(b) => b,
        None => default,
    }
}

/// A reference to an element of a page snapshot.
#[derive(Clone, Debug, PartialEq, Eq)]
pub struct BrowserSnapshotTarget {
    pub snapshot_revision: u64,
    pub element_ref: String,
}

/// The snapshot reference the arguments give: its revision and element.
pub open spec fn snapshot_target_of(args: Members) -> Result<(u64, Seq<char>), Seq<char>> {
    match as_u64(member(args, "snapshot_revision"@)) {
        None => Err("缺少 snapshot_revision"@),
        Some(revision) => match optional_string_of(args, "element_ref"@) {
            None => Err("缺少参数 "@ + "element_ref"@),
            Some(element_ref) => Ok((revision, element_ref)),
        },
    }
}

/// The snapshot reference of the arguments.
pub fn snapshot_target(arguments: &Vec<(String, JsonValue)>) -> (r: Result<BrowserSnapshotTarget, BrowserToolError>)
    ensures
        match (r, snapshot_target_of(json_entries_view(arguments@))) {
            (Ok(t), Ok((revision, element_ref))) => t.snapshot_revision == revision && t.element_ref@ == element_ref,
            (Err(e), Err(message)) => e.code@ == "invalid_arguments"@ && e.message@ == message,
            _ => false,
        },
{
    let snapshot_revision = match value_as_u64(get(arguments, "snapshot_revision")) {
        Some(v) => v,
        None => {
            return Err(invalid(str_to_string("缺少 snapshot_revision")));
        },
    };
    let element_ref = string_arg(arguments, "element_ref")?;
    Ok(BrowserSnapshotTarget { snapshot_revision, element_ref })
}

/// The screenshot's element scope: none where no element or the synthetic
/// root is named, else the snapshot reference.
pub open spec fn optional_snapshot_target_of(args: Members) -> Result<Option<(u64, Seq<char>)>, Seq<char>> {
    match optional_string_of(args, "element_ref"@) {
        None => Ok(None),
        Some(e) => if e == "root"@ {
            Ok(None)
        } else {
            match snapshot_target_of(args) {
                Ok(t) => Ok(Some(t)),
                Err(m) => Err(m),
            }
        },
    }
}

/// The element a screenshot is scoped to, `None` for the whole page.
pub fn optional_snapshot_target(arguments: &Vec<(String, JsonValue)>) -> (r: Result<Option<BrowserSnapshotTarget>, BrowserToolError>)
    ensures
        match (r, optional_snapshot_target_of(json_entries_view(arguments@))) {
            (Ok(None), Ok(None)) => true,
            (Ok(Some(t)), Ok(Some((revision, element_ref)))) => t.snapshot_revision == revision
                && t.element_ref@ == element_ref,
            (Err(e), Err(message)) => e.code@ == "invalid_arguments"@ && e.message@ == message,
            _ => false,
        },
{
    match optional_string(arguments, "element_ref") {
        None => Ok(None),
        Some(e) => {
            if str_eq(e.as_str(), "root") {
                Ok(None)
            } else {
                match snapshot_target(arguments) {
                    Ok(t) => Ok(Some(t)),
                    Err(error) => Err(error),
                }
            }
        },
    }
}

/// The kinds of browser tool whose access depends on their arguments.
#[derive(Clone, Copy, Debug, PartialEq, Eq, Structural)]
pub enum BrowserToolKind {
    Tabs,
    Viewport,
    Dialog,
    Console,
    Network,
    Performance,
    Lighthouse,
    Heap,
    ThirdParty,
    WebMcp,
    Pwa,
    /// A tool whose access is the one its catalog entry gives.
    Other,
}

/// Whether a browser tool call only reads the page or may change it.
#[derive(Clone, Copy, Debug, PartialEq, Eq, Structural)]
pub enum BrowserToolAccess {
    Read,
    Write,
}

/// The access a call asks for: listing and inspecting actions read, all
/// others write; a tool whose access does not depend on its action has its
/// catalog's.
pub open spec fn requested_access(
    kind: BrowserToolKind,
    catalog_access: BrowserToolAccess,
    action: Option<Seq<char>>,
    mode: Option<Seq<char>>,
) -> BrowserToolAccess {
    let read = match kind {
        BrowserToolKind::Tabs => action == Some("list"@),
        BrowserToolKind::Viewport => action == Some("get"@),
        BrowserToolKind::Dialog => action == Some("list"@),
        BrowserToolKind::Console => action == Some("list"@) || action == Some("get"@),
        BrowserToolKind::Network => action == Some("list"@) || action == Some("get"@) || action == Some("failed"@),
        BrowserToolKind::Performance => action == Some("metrics"@) || action == Some("analyze"@),
        BrowserToolKind::Lighthouse => mode == Some("snapshot"@),
        BrowserToolKind::Heap => action matches Some(a) && heap_read_action(a),
        BrowserToolKind::ThirdParty => action == Some("list"@),
        BrowserToolKind::WebMcp => action == Some("list"@),
        BrowserToolKind::Pwa => action == Some("state"@),
        BrowserToolKind::Other => catalog_access == BrowserToolAccess::Read,
    };
    if read {
        BrowserToolAccess::Read
    } else {
        BrowserToolAccess::Write
    }
}

fn opt_is(value: Option<&str>, expected: &str) -> (r: bool)
    ensures
        r == (match value { Some(v) => Some(v@), None => None } == Some(expected@)),
{
    match value {
        Some(v) => str_eq(v, expected),
        None => false,
    }
}

/// The access a browser tool call asks for, given the access its catalog
/// entry gives.
pub fn browser_tool_requested_access(
    kind: BrowserToolKind,
    catalog_access: BrowserToolAccess,
    arguments: &Vec<(String, JsonValue)>,
) -> (r: BrowserToolAccess)
    ensures
        r == requested_access(
            kind,
            catalog_access,
            json_as_str(member(json_entries_view(arguments@), "action"@)),
            json_as_str(member(json_entries_view(arguments@), "mode"@)),
        ),
{
    let action = value_as_str(get(arguments, "action"));
    let mode = value_as_str(get(arguments, "mode"));
    let read = match kind {
        BrowserToolKind::Tabs => opt_is(action, "list"),
        BrowserToolKind::Viewport => opt_is(action, "get"),
        BrowserToolKind::Dialog => opt_is(action, "list"),
        BrowserToolKind::Console => opt_is(action, "list") || opt_is(action, "get"),
        BrowserToolKind::Network => opt_is(action, "list") || opt_is(action, "get") || opt_is(action, "failed"),
        BrowserToolKind::Performance => opt_is(action, "metrics") || opt_is(action, "analyze"),
        BrowserToolKind::Lighthouse => opt_is(mode, "snapshot"),
        BrowserToolKind::Heap => opt_is(action, "usage") || opt_is(action, "compare_snapshots")
            || opt_is(action, "summary") || opt_is(action, "details") || opt_is(action, "class_nodes")
            || opt_is(action, "dominators") || opt_is(action, "duplicate_strings") || opt_is(action, "edges")
            || opt_is(action, "object_details") || opt_is(action, "retainers")
            || opt_is(action, "retaining_paths"),
        BrowserToolKind::ThirdParty => opt_is(action, "list"),
        BrowserToolKind::WebMcp => opt_is(action, "list"),
        BrowserToolKind::Pwa => opt_is(action, "state"),
        BrowserToolKind::Other => catalog_access == BrowserToolAccess::Read,
    };
    if read {
        BrowserToolAccess::Read
    } else {
        BrowserToolAccess::Write
    }
}

/// The browser tool that a name names: the tools the runtime executes, by
/// their names; those whose access does not depend on their arguments are
/// `Other`.
pub open spec fn tool_kind_named(name: Seq<char>) -> Option<BrowserToolKind> {
    if name == "browser_tabs"@ {
        Some(BrowserToolKind::Tabs)
    } else if name == "browser_viewport"@ {
        Some(BrowserToolKind::Viewport)
    } else if name == "browser_dialog"@ {
        Some(BrowserToolKind::Dialog)
    } else if name == "browser_console"@ {
        Some(BrowserToolKind::Console)
    } else if name == "browser_network"@ {
        Some(BrowserToolKind::Network)
    } else if name == "browser_performance"@ {
        Some(BrowserToolKind::Performance)
    } else if name == "browser_lighthouse"@ {
        Some(BrowserToolKind::Lighthouse)
    } else if name == "browser_heap"@ {
        Some(BrowserToolKind::Heap)
    } else if name == "browser_third_party"@ {
        Some(BrowserToolKind::ThirdParty)
    } else if name == "browser_webmcp"@ {
        Some(BrowserToolKind::WebMcp)
    } else if name == "browser_pwa"@ {
        Some(BrowserToolKind::Pwa)
    } else if name == "browser_navigate"@
        || name == "browser_snapshot"@
        || name == "browser_click"@
        || name == "browser_type"@
        || name == "browser_press"@
        || name == "browser_scroll"@
        || name == "browser_screenshot"@
        || name == "browser_wait_for"@
        || name == "browser_hover"@
        || name == "browser_drag"@
        || name == "browser_fill_form"@
        || name == "browser_upload_file"@
        || name == "browser_click_at"@
        || name == "browser_evaluate"@
        || name == "browser_emulate"@ {
        Some(BrowserToolKind::Other)
    } else {
        None
    }
}

/// The browser tool that a name names (see [`tool_kind_named`]).
pub fn browser_tool_kind_named(name: &str) -> (r: Option<BrowserToolKind>)
    ensures
        r == tool_kind_named(name@),
{
    if str_eq(name, "browser_tabs") {
        return Some(BrowserToolKind::Tabs);
    }
    if str_eq(name, "browser_viewport") {
        return Some(BrowserToolKind::Viewport);
    }
    if str_eq(name, "browser_dialog") {
        return Some(BrowserToolKind::Dialog);
    }
    if str_eq(name, "browser_console") {
        return Some(BrowserToolKind::Console);
    }
    if str_eq(name, "browser_network") {
        return Some(BrowserToolKind::Network);
    }
    if str_eq(name, "browser_performance") {
        return Some(BrowserToolKind::Performance);
    }
    if str_eq(name, "browser_lighthouse") {
        return Some(BrowserToolKind::Lighthouse);
    }
    if str_eq(name, "browser_heap") {
        return Some(BrowserToolKind::Heap);
    }
    if str_eq(name, "browser_third_party") {
        return Some(BrowserToolKind::ThirdParty);
    }
    if str_eq(name, "browser_webmcp") {
        return Some(BrowserToolKind::WebMcp);
    }
    if str_eq(name, "browser_pwa") {
        return Some(BrowserToolKind::Pwa);
    }
    if str_eq(name, "browser_navigate")
        || str_eq(name, "browser_snapshot")
        || str_eq(name, "browser_click")
        || str_eq(name, "browser_type")
        || str_eq(name, "browser_press")
        || str_eq(name, "browser_scroll")
        || str_eq(name, "browser_screenshot")
        || str_eq(name, "browser_wait_for")
        || str_eq(name, "browser_hover")
        || str_eq(name, "browser_drag")
        || str_eq(name, "browser_fill_form")
        || str_eq(name, "browser_upload_file")
        || str_eq(name, "browser_click_at")
        || str_eq(name, "browser_evaluate")
        || str_eq(name, "browser_emulate") {
        Some(BrowserToolKind::Other)
    } else {
        None
    }
}

/// `e` is the plain failure payload of `tool` with this code and message.
pub open spec fn is_failure(e: (String, ExecutionResultStatus), tool: Seq<char>, code: Seq<char>, message: Seq<char>) -> bool {
    &&& Some(e.0@) == json_text(failure_document(tool, code, message, false, false, None, ExecutionResultStatus::Failed))
    &&& e.1 == ExecutionResultStatus::Failed
}

/// `e` is the payload of `tool` whose browser surface is unavailable, with
/// this message.
pub open spec fn is_capability_unavailable(e: (String, ExecutionResultStatus), tool: Seq<char>, message: Seq<char>) -> bool {
    &&& Some(e.0@) == json_text(failure_document(
        tool,
        "capability_unavailable"@,
        message,
        true,
        false,
        Some(capability_details()),
        ExecutionResultStatus::Failed,
    ))
    &&& e.1 == ExecutionResultStatus::Failed
}

/// What a browser tool call starts from: its kind, the revision of the
/// capability snapshot its model turn saw, and the members of its input
/// object; or the first failure, in this order: no session, an input that
/// is not a JSON object, a name that names no tool, no capability revision.
pub open spec fn is_call_arguments(
    r: Result<(BrowserToolKind, u64, Vec<(String, JsonValue)>), (String, ExecutionResultStatus)>,
    tool: Seq<char>,
    input: Seq<char>,
    has_session: bool,
    capability_revision: Option<u64>,
) -> bool {
    if !has_session {
        r matches Err(e) && is_failure(e, tool, "browser_session_scope_missing"@, "浏览器工具缺少 session_id"@)
    } else {
        match parsed_json(input) {
            Some(JsonView::Object(m)) => match tool_kind_named(tool) {
                None => r matches Err(e) && is_failure(e, tool, "unknown_browser_tool"@, "未知的浏览器工具"@),
                Some(k) => match capability_revision {
                    None => r matches Err(e) && is_failure(
                        e,
                        tool,
                        "browser_capability_snapshot_missing"@,
                        "浏览器工具调用缺少当前模型轮次的能力快照"@,
                    ),
                    Some(rev) => r matches Ok((kind, revision, members))
                        && kind == k && revision == rev && json_entries_view(members@) == m,
                },
            },
            _ => r matches Err(e) && is_failure(e, tool, "invalid_arguments"@, "浏览器工具参数必须是 JSON 对象"@),
        }
    }
}

/// Parses a browser tool call's input and names its tool (see
/// [`is_call_arguments`]).
pub fn browser_tool_call_arguments(
    tool_name: &str,
    input: &str,
    has_session: bool,
    capability_revision: Option<u64>,
) -> (r: Result<(BrowserToolKind, u64, Vec<(String, JsonValue)>), (String, ExecutionResultStatus)>)
    ensures
        is_call_arguments(r, tool_name@, input@, has_session, capability_revision),
{
    if !has_session {
        return Err(failure(tool_name, "browser_session_scope_missing", "浏览器工具缺少 session_id"));
    }
    let members = match parse_json(input) {
        Some(JsonValue::Object(entries)) => entries,
        _ => {
            return Err(failure(tool_name, "invalid_arguments", "浏览器工具参数必须是 JSON 对象"));
        },
    };
    let kind = match browser_tool_kind_named(tool_name) {
        Some(k) => k,
        None => {
            return Err(failure(tool_name, "unknown_browser_tool", "未知的浏览器工具"));
        },
    };
    match capability_revision {
        Some(revision) => Ok((kind, revision, members)),
        None => Err(failure(
            tool_name,
            "browser_capability_snapshot_missing",
            "浏览器工具调用缺少当前模型轮次的能力快照",
        )),
    }
}

/// What stops a call once its arguments are read: the capability
/// snapshot's refusal of this tool and access, where it refuses (its text,
/// from the browser authority), else a browser Host that is not ready.
pub fn browser_tool_execution_gate(
    tool_name: &str,
    capability_refusal: Option<&str>,
    host_ready: bool,
) -> (r: Option<(String, ExecutionResultStatus)>)
    ensures
        match capability_refusal {
            Some(m) => r matches Some(e) && is_capability_unavailable(e, tool_name@, m@),
            None => if host_ready {
                r is None
            } else {
                r matches Some(e) && is_capability_unavailable(e, tool_name@, "浏览器 Host 尚未就绪"@)
            },
        },
{
    match capability_refusal {
        Some(m) => Some(capability_unavailable(tool_name, m)),
        None => if host_ready {
            None
        } else {
            Some(capability_unavailable(tool_name, "浏览器 Host 尚未就绪"))
        },
    }
}

} // verus!
