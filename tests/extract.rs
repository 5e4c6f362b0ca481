use ai_report_generator::extract::{extract_block, extract_code_blocks};

#[test]
fn test_extract_html() {
    let content = r#"
Here is the code:
```html
<div>Hello</div>
```
"#;
    let (html, _, _) = extract_code_blocks(content);
    assert_eq!(html, Some("<div>Hello</div>".to_string()));
}

#[test]
fn test_extract_all_blocks() {
    let content = r#"
```html
<html></html>
```

```css
body { color: red; }
```

```javascript
console.log("hello");
```
"#;
    let (html, css, js) = extract_code_blocks(content);
    assert!(html.is_some());
    assert!(css.is_some());
    assert!(js.is_some());
}

#[test]
fn extracted_blocks_are_trimmed() {
    let content = "intro\n```html  \n\n   <main>x</main>   \n```\ntail";
    assert_eq!(
        extract_block(content, "html"),
        Some("<main>x</main>".to_string())
    );
}

#[test]
fn missing_block_is_not_found() {
    assert_eq!(extract_block("no code here", "html"), None);
    assert_eq!(extract_block("```css\nbody{}\n```", "html"), None);
}

#[test]
fn blank_block_is_not_found() {
    assert_eq!(extract_block("```html\n   \n```", "html"), None);
}

#[test]
fn first_block_wins() {
    let content = "```css\na{}\n```\n```css\nb{}\n```";
    assert_eq!(extract_block(content, "css"), Some("a{}".to_string()));
}

#[test]
fn js_tag_is_the_fallback_for_scripts() {
    let content = "```js\nlet x = 1;\n```";
    let (html, css, js) = extract_code_blocks(content);
    assert_eq!(html, None);
    assert_eq!(css, None);
    assert_eq!(js, Some("let x = 1;".to_string()));
}

#[test]
fn unicode_body_is_kept() {
    let content = "```html\n<p>Thị trường</p>\n```";
    assert_eq!(
        extract_block(content, "html"),
        Some("<p>Thị trường</p>".to_string())
    );
}

#[test]
fn block_with_backquotes_around_and_space_after_fence() {
    let content = "use `code` here\n```html \t\n  <p>a</p>\n```\nthen ```more``` text";
    assert_eq!(extract_block(content, "html"), Some("<p>a</p>".to_string()));
}

#[test]
fn re_extraction_gives_the_same_text() {
    let content = "```html\n\n  <div>\n  x\n</div>  \n```";
    let first = extract_block(content, "html").unwrap();
    assert_eq!(first, first.trim());
    let again = extract_block(&format!("```html\n{}\n```", first), "html");
    assert_eq!(again, Some(first));
}
