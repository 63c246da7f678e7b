//! The first page that a browser gets: the HTML template filled with the
//! present readings, then minified.
//!
//! The template is rendered by `tera` and the page is minified by
//! `minify_html`. What goes into the template, and what is served where
//! rendering fails, is decided here.

use crate::sensors::{round_thousandths, rounded};
use crate::session::Readings;
use tera::{Context, Tera};
use vstd::prelude::*;
use vstd::string::*;
use vstd::utf8::{decode_utf8, encode_utf8, encode_utf8_decode_utf8, valid_utf8};

verus! {

/// `tera::Tera`: the template engine with its templates. Nothing inside it
/// is read here.
#[verifier::external_type_specification]
#[verifier::external_body]
pub struct ExTera(tera::Tera);

/// `tera::Context`: the values that a template is filled with, by name.
#[verifier::external_type_specification]
#[verifier::external_body]
pub struct ExContext(tera::Context);

/// The numbers that `context` holds, by name.
pub uninterp spec fn context_numbers(context: Context) -> Map<Seq<char>, u32>;

/// The texts that `context` holds, by name.
pub uninterp spec fn context_texts(context: Context) -> Map<Seq<char>, Seq<char>>;

/// What `minify_html::minify` makes of the HTML `html` with the
/// configuration `Cfg::spec_compliant()`.
pub uninterp spec fn minified(html: Seq<u8>) -> Seq<u8>;

/// A context without values: `tera::Context::new`.
#[verifier::external_body]
fn empty_context() -> (context: Context)
    ensures
        context_numbers(context) == (Map::<Seq<char>, u32>::empty()),
        context_texts(context) == (Map::<Seq<char>, Seq<char>>::empty()),
{
    Context::new()
}

/// Puts the number `value` into `context` under `key`.
///
/// Calls `tera::Context::insert`, which replaces whatever value the context
/// held under that name and leaves the other names alone.
#[verifier::external_body]
fn insert_number(context: &mut Context, key: &str, value: u32)
    ensures
        context_numbers(*final(context)) == context_numbers(*old(context)).insert(key@, value),
        context_texts(*final(context)) == context_texts(*old(context)).remove(key@),
{
    context.insert(key, &value);
}

/// Puts the text `value` into `context` under `key`.
///
/// Calls `tera::Context::insert`, which replaces whatever value the context
/// held under that name and leaves the other names alone.
#[verifier::external_body]
fn insert_text(context: &mut Context, key: &str, value: &str)
    ensures
        context_texts(*final(context)) == context_texts(*old(context)).insert(key@, value@),
        context_numbers(*final(context)) == context_numbers(*old(context)).remove(key@),
{
    context.insert(key, value);
}

/// Renders the template `name` of `tera` with the values of `context`.
///
/// Calls `tera::Tera::render`. What comes back depends on the templates that
/// the engine was given, and a template may ask for the time or the
/// environment, so nothing is claimed of it. The error is handed on as its
/// text.
#[verifier::external_body]
fn render_template(tera: &Tera, name: &str, context: &Context) -> (rendered: Result<String, String>)
{
    tera.render(name, context).map_err(|e| e.to_string())
}

/// Minifies the HTML `html`.
///
/// Calls `minify_html::minify` with `Cfg::spec_compliant()`. The result
/// depends on the bytes alone and is named `minified`.
#[verifier::external_body]
fn minify_spec_compliant(html: &[u8]) -> (out: Vec<u8>)
    ensures
        out@ == minified(html@),
{
    minify_html::minify(html, &minify_html::Cfg::spec_compliant())
}

/// The text that `bytes` encode in UTF-8, or `None` where they are not valid
/// UTF-8: `String::from_utf8`.
#[verifier::external_body]
fn text_from_utf8(bytes: Vec<u8>) -> (text: Option<String>)
    ensures
        text is Some <==> valid_utf8(bytes@),
        text is Some ==> encode_utf8(text.unwrap()@) == bytes@,
{
    String::from_utf8(bytes).ok()
}

/// The numbers that the page's template is filled with.
pub open spec fn page_numbers(cpu_usage: u32, cpu_temperature: u32, fan_speed: u32) -> Map<
    Seq<char>,
    u32,
> {
    Map::<Seq<char>, u32>::empty().insert("cpu_usage"@, cpu_usage).insert(
        "cpu_temperature"@,
        cpu_temperature,
    ).insert("fan_speed"@, fan_speed)
}

/// The texts that the page's template is filled with.
pub open spec fn page_texts(node_name: Seq<char>) -> Map<Seq<char>, Seq<char>> {
    Map::<Seq<char>, Seq<char>>::empty().insert("node_name"@, node_name)
}

/// The values that the page's template is filled with: the CPU usage in
/// percent, the temperature in degrees Celsius, the fan speed and the name of
/// the node.
pub fn page_context(
    cpu_usage: u32,
    cpu_temperature: u32,
    fan_speed: u32,
    node_name: &str,
) -> (context: Context)
    ensures
        context_numbers(context) == page_numbers(cpu_usage, cpu_temperature, fan_speed),
        context_texts(context) == page_texts(node_name@),
{
    let mut context = empty_context();
    insert_number(&mut context, "cpu_usage", cpu_usage);
    insert_number(&mut context, "cpu_temperature", cpu_temperature);
    insert_number(&mut context, "fan_speed", fan_speed);
    assert(context_texts(context) =~= Map::<Seq<char>, Seq<char>>::empty());
    insert_text(&mut context, "node_name", node_name);
    proof {
        reveal_strlit("cpu_usage");
        reveal_strlit("cpu_temperature");
        reveal_strlit("fan_speed");
        reveal_strlit("node_name");
        assert("node_name"@[0] != "cpu_usage"@[0]);
        assert("node_name"@.len() != "cpu_temperature"@.len());
        assert("node_name"@[0] != "fan_speed"@[0]);
        assert(context_numbers(context) =~= page_numbers(cpu_usage, cpu_temperature, fan_speed));
    }
    context
}

/// The minified form of the page `html`, or `html` itself where the
/// minifier's output is not valid UTF-8.
pub open spec fn compressed(html: Seq<char>) -> Seq<char> {
    let out = minified(encode_utf8(html));
    if valid_utf8(out) {
        decode_utf8(out)
    } else {
        html
    }
}

/// Minifies the page `html`. Where the minifier's output is not text, the
/// page is served as it is.
pub fn compress_html(html: &str) -> (page: String)
    ensures
        page@ == compressed(html@),
{
    let out = minify_spec_compliant(html.as_bytes());
    match text_from_utf8(out) {
        Some(text) => {
            proof {
                encode_utf8_decode_utf8(text@);
            }
            text
        },
        None => String::from_str(html),
    }
}

/// The text to serve for what the rendering gave: the page, or in its place
/// a line that tells the error.
pub open spec fn page_text(rendered: Result<String, String>) -> Seq<char> {
    match rendered {
        Ok(html) => html@,
        Err(error) => "Template error: "@ + error@,
    }
}

/// The body to serve for what the rendering gave: the rendered page,
/// minified; where rendering failed, a line that tells the error, so that
/// the request is answered all the same.
pub fn page_body(rendered: Result<String, String>) -> (body: String)
    ensures
        body@ == compressed(page_text(rendered)),
{
    match rendered {
        Ok(html) => compress_html(html.as_str()),
        Err(error) => {
            let mut line = String::from_str("Template error: ");
            line.append(error.as_str());
            compress_html(line.as_str())
        },
    }
}

/// The values that the first page's template is filled with for
/// `readings`: the CPU usage and the temperature rounded to whole percents
/// and degrees, the fan speed as it is, and the name of the node.
pub fn index_context(readings: Readings, node_name: &str) -> (context: Context)
    ensures
        context_numbers(context) == page_numbers(
            round_thousandths(readings.cpu_usage as int) as u32,
            round_thousandths(readings.temperature as int) as u32,
            readings.fan_speed,
        ),
        context_texts(context) == page_texts(node_name@),
{
    page_context(
        rounded(readings.cpu_usage),
        rounded(readings.temperature),
        readings.fan_speed,
        node_name,
    )
}

/// The first page: the template `index.html` of `tera` rendered with the
/// values of `index_context`, then minified. What the engine makes of the
/// template is its own matter; the body is that of `page_body` for whatever
/// it gave.
pub fn index_page(tera: &Tera, readings: Readings, node_name: &str) -> (body: String)
    ensures
        exists|rendered: Result<String, String>|
            body@ == compressed(#[trigger] page_text(rendered)),
{
    let context = index_context(readings, node_name);
    let rendered = render_template(tera, "index.html", &context);
    let ghost witness = rendered;
    let body = page_body(rendered);
    assert(body@ == compressed(page_text(witness)));
    body
}

} // verus!
