use openai_ng::{Content, ContentContainer, ImageUrl, Stop};

fn parts(c: &Content) -> Vec<ContentContainer> {
    match c {
        Content::Containers(cs) => cs.clone(),
        other => panic!("not parts: {:?}", other),
    }
}

fn text_part(p: &ContentContainer) -> (String, String) {
    match p {
        ContentContainer::Text { typ, text } => (typ.clone(), text.clone()),
        other => panic!("not a text part: {:?}", other),
    }
}

#[test]
fn text_then_parts_puts_text_first() {
    let mut c = Content::from_text("look:");
    c.merge(Content::from_image_url("http://x/y.png"));
    let ps = parts(&c);
    assert_eq!(ps.len(), 2);
    assert_eq!(text_part(&ps[0]), ("text".to_string(), "look:".to_string()));
    match &ps[1] {
        ContentContainer::Image { typ, image_url } => {
            assert_eq!(typ, "image_url");
            assert_eq!(image_url.url, "http://x/y.png");
        }
        other => panic!("not an image: {:?}", other),
    }
}

#[test]
fn parts_then_text_appends_text_part() {
    let mut c = Content::from_image_url("u");
    c.merge(Content::from_text("t"));
    let ps = parts(&c);
    assert_eq!(ps.len(), 2);
    assert_eq!(text_part(&ps[1]), ("text".to_string(), "t".to_string()));
}

#[test]
fn parts_concatenate() {
    let mut c = Content::from_image_url("a");
    c.merge(Content::from_image_url("b"));
    assert_eq!(parts(&c).len(), 2);
}

#[test]
fn append_turns_text_into_parts() {
    let mut c = Content::from_text("hi");
    c.append(ContentContainer::from_image(ImageUrl::from_url("u")));
    let ps = parts(&c);
    assert_eq!(ps.len(), 2);
    assert_eq!(text_part(&ps[0]), ("text".to_string(), "hi".to_string()));
    match &ps[1] {
        ContentContainer::Image { typ, .. } => assert_eq!(typ, "image"),
        other => panic!("not an image: {:?}", other),
    }
    c.append(ContentContainer::from_text("more"));
    assert_eq!(parts(&c).len(), 3);
}

#[test]
fn image_binary_becomes_data_url() {
    let u = ImageUrl::from_image_binary(b"hello", "png");
    assert_eq!(u.url, "data:image/png;base64,aGVsbG8=");
    let e = ImageUrl::from_encoded_image("QQ==", "jpeg");
    assert_eq!(e.url, "data:image/jpeg;base64,QQ==");
}

fn texts(s: &Stop) -> Vec<String> {
    match s {
        Stop::Texts(ts) => ts.clone(),
        Stop::Text(t) => panic!("single text {}", t),
    }
}

#[test]
fn stop_append_cases() {
    let a = Stop::Text("a".into()).append(Stop::Text("b".into()));
    assert_eq!(texts(&a), vec!["a", "b"]);
    let b = Stop::Text("a".into()).append(Stop::Texts(vec!["b".into(), "c".into()]));
    assert_eq!(texts(&b), vec!["b", "c", "a"]);
    let c = Stop::Texts(vec!["a".into()]).append(Stop::Text("b".into()));
    assert_eq!(texts(&c), vec!["a", "b"]);
    let d = Stop::Texts(vec!["a".into()]).append(Stop::Texts(vec!["b".into(), "c".into()]));
    assert_eq!(texts(&d), vec!["a", "b", "c"]);
}
