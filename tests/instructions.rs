use stationpedia::catalog::Command;
use stationpedia::instructions::{escape_pipes, instructions_page, render, ConfigInstruction};

fn ins(command: &str, category: &[&str], order: usize, desc: &str, example: &str) -> ConfigInstruction {
    ConfigInstruction {
        command: command.to_string(),
        category: category.iter().map(|s| s.to_string()).collect(),
        example: None,
        note: None,
        desc: None,
        syntax: None,
        info: Command { desc: desc.to_string(), example: example.to_string() },
        order,
    }
}

#[test]
fn pipes_are_escaped() {
    assert_eq!(escape_pipes("a|b||c"), "a{{!}}b{{!}}{{!}}c");
    assert_eq!(escape_pipes(""), "");
}

#[test]
fn render_uses_catalog_texts() {
    let mut out = String::new();
    render(&vec![ins("add", &["Math"], 0, "Adds a | b", "<col>add</col> r? a(r?|num)")], &mut out);
    assert_eq!(
        out,
        "{{ICInstruction|instruction=add|description=Adds a {{!}} b|syntax=add r? a(r?{{!}}num)}}\n"
    );
}

#[test]
fn render_prefers_configured_texts() {
    let mut i = ins("sub", &["Math"], 0, "ignored", "ignored");
    i.desc = Some("Subtracts".to_string());
    i.syntax = Some("sub r? a b".to_string());
    i.example = Some("sub r0 r1 r2".to_string());
    i.note = Some("careful".to_string());
    let mut out = String::from("x");
    render(&vec![i], &mut out);
    assert_eq!(
        out,
        "x{{ICInstruction|instruction=sub|description=Subtracts|syntax=sub r? a b\n|example=\nsub r0 r1 r2\n|note=\ncareful}}\n"
    );
}

#[test]
fn page_groups_and_orders_instructions() {
    let categories = vec![
        vec!["Math".to_string()],
        vec!["Deprecated".to_string()],
        vec!["Math".to_string(), "Trig".to_string()],
    ];
    let instructions = vec![
        ins("add", &["Math"], 1, "A", "add"),
        ins("cos", &["Math", "Trig"], 0, "C", "cos"),
        ins("abs", &["Math"], 0, "B", "abs"),
        ins("old", &["Deprecated"], 0, "O", "old"),
        ins("mul", &["Math"], 1, "M", "mul"),
    ];
    let page = instructions_page(&categories, &instructions);
    let expected = "<noinclude>\nSee [[IC10]] for the primary page for the IC10 instruction set. This page lists all available instructions\n</noinclude>\n\n\
== Math ==\n\n\
{{ICInstruction|instruction=abs|description=B|syntax=abs}}\n\
{{ICInstruction|instruction=add|description=A|syntax=add}}\n\
{{ICInstruction|instruction=mul|description=M|syntax=mul}}\n\
\n\
=== Math / Trig ===\n\n\
{{ICInstruction|instruction=cos|description=C|syntax=cos}}\n\
\n";
    assert_eq!(page, expected);
}
