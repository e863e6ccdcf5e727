use course_chat::message::{
    classify_input, image_decodes, image_name, message_of, new_image_name, overwrite_from_start, Input,
    Message, MessageError, MessageType,
};

fn text(content: &str) -> Message {
    Message::new(MessageType::Text { content: content.to_string() })
}

#[test]
fn quit_signal_is_quit() {
    let m = Message::quit_signal(Some("127.0.0.1:5".to_string()));
    assert!(m.is_quit());
    assert_eq!(m.get_sender(), &Some("127.0.0.1:5".to_string()));
    assert!(!text("hi").is_quit());
}

#[test]
fn sender_is_recorded() {
    let mut m = text("hi");
    assert!(!m.has_sender());
    m.set_sender("10.0.0.1:42".to_string());
    assert!(m.has_sender());
    assert_eq!(m.get_sender(), &Some("10.0.0.1:42".to_string()));
}

#[test]
fn display_of_text_and_files() {
    let mut m = text("hello");
    assert_eq!(m.display(), "[unknown]: hello");
    m.set_sender("1.2.3.4:5".to_string());
    assert_eq!(m.display(), "[1.2.3.4:5]: hello");
    let f = Message::new(MessageType::File { name: "a.txt".to_string(), content: vec![1] });
    assert_eq!(f.display(), "[unknown]: receiving a.txt");
    let i = Message::new(MessageType::Image { name: "p.png".to_string(), content: vec![1] });
    assert_eq!(i.display(), "[unknown]: receiving p.png");
}

#[test]
fn png_signature_is_recognised() {
    let png = Message::new(MessageType::Image {
        name: "x.png".to_string(),
        content: vec![137, 80, 78, 71, 13, 10, 26, 10, 0, 0],
    });
    assert_eq!(png.is_image_and_png(), Ok(true));
    let other = Message::new(MessageType::Image {
        name: "x.png".to_string(),
        content: vec![0xff, 0xd8, 0xff, 0xe0, 0, 0, 0, 0],
    });
    assert_eq!(other.is_image_and_png(), Ok(false));
    assert_eq!(text("hi").is_image_and_png(), Err(MessageError::Unsupported));
}

#[test]
fn only_images_convert() {
    let mut t = text("hi");
    assert_eq!(t.convert_image_to_png(), Err(MessageError::Unsupported));
    assert_eq!(t.try_convert_image_to_png(), Some(Err(MessageError::Unsupported)));
}

#[test]
fn undecodable_image_is_left_alone() {
    let mut m = Message::new(MessageType::Image { name: "n.png".to_string(), content: vec![1, 2, 3, 4, 5, 6, 7, 8] });
    assert!(!image_decodes(&[1, 2, 3, 4, 5, 6, 7, 8]));
    assert_eq!(m.try_convert_image_to_png(), None);
    match &m.type_ {
        MessageType::Image { content, .. } => assert_eq!(content, &vec![1, 2, 3, 4, 5, 6, 7, 8]),
        _ => panic!("not an image"),
    }
}

fn tiny_png() -> Vec<u8> {
    let mut out = std::io::Cursor::new(Vec::new());
    let img = image::RgbImage::from_pixel(2, 2, image::Rgb([10, 20, 30]));
    image::DynamicImage::ImageRgb8(img).write_to(&mut out, image::ImageOutputFormat::Png).unwrap();
    out.into_inner()
}

#[test]
fn png_image_is_reencoded_as_png() {
    let bytes = tiny_png();
    assert!(image_decodes(&bytes));
    let mut m = Message::new(MessageType::Image { name: "n.png".to_string(), content: bytes });
    assert_eq!(m.try_convert_image_to_png(), Some(Ok(())));
    assert_eq!(m.is_image_and_png(), Ok(true));
}

#[test]
fn overwrite_keeps_the_tail() {
    let mut v = vec![1, 2, 3, 4, 5];
    overwrite_from_start(&mut v, &[9, 9]);
    assert_eq!(v, vec![9, 9, 3, 4, 5]);
    let mut w = vec![1];
    overwrite_from_start(&mut w, &[7, 8, 9]);
    assert_eq!(w, vec![7, 8, 9]);
}

#[test]
fn save_targets() {
    let f = Message::new(MessageType::File { name: "a.txt".to_string(), content: vec![1, 2] });
    let (path, bytes) = f.save_target().unwrap();
    assert_eq!(path, "././client/files//a.txt");
    assert_eq!(bytes, &vec![1, 2]);
    let i = Message::new(MessageType::Image { name: "b.png".to_string(), content: vec![3] });
    assert_eq!(i.save_target().unwrap().0, "././client/images//b.png");
    assert_eq!(text("x").save_target().err(), Some(MessageError::Unsupported));
}

#[test]
fn input_quit() {
    assert!(matches!(classify_input(".quit"), Input::Quit));
    assert!(matches!(classify_input(".quit now"), Input::Quit));
}

#[test]
fn input_single_word_is_text() {
    match classify_input("hello") {
        Input::Text(t) => assert_eq!(t, "hello"),
        _ => panic!(),
    }
}

#[test]
fn input_file_and_image() {
    match classify_input(".file notes.txt") {
        Input::File(p) => assert_eq!(p, "notes.txt"),
        _ => panic!(),
    }
    match classify_input(".image pic.jpg") {
        Input::Image(p) => assert_eq!(p, "pic.jpg"),
        _ => panic!(),
    }
}

#[test]
fn input_longer_text_runs_the_rest_together() {
    match classify_input("hello there general kenobi") {
        Input::Text(t) => assert_eq!(t, "hello there generalkenobi"),
        _ => panic!(),
    }
    match classify_input("two words") {
        Input::Text(t) => assert_eq!(t, "two words "),
        _ => panic!(),
    }
}

#[test]
fn image_names() {
    assert_eq!(image_name(Ok("1700".to_string()), "p.jpg"), "1700.png");
    assert_eq!(image_name(Err("clock".to_string()), "p.jpg"), "p.jpg.png");
    let name = new_image_name("p.jpg");
    assert!(name.ends_with(".png"));
    assert!(name[..name.len() - 4].chars().all(|c| c.is_ascii_digit()));
}

#[test]
fn bmp_image_is_converted_to_png() {
    let img = image::DynamicImage::ImageRgb8(image::RgbImage::from_pixel(3, 2, image::Rgb([200, 1, 7])));
    let mut bmp = std::io::Cursor::new(Vec::new());
    img.write_to(&mut bmp, image::ImageOutputFormat::Bmp).unwrap();
    let bmp = bmp.into_inner();
    let mut png = std::io::Cursor::new(Vec::new());
    img.write_to(&mut png, image::ImageOutputFormat::Png).unwrap();
    let png = png.into_inner();

    let mut m = Message::new(MessageType::Image { name: "pic.png".to_string(), content: bmp.clone() });
    assert_eq!(m.is_image_and_png(), Ok(false));
    assert_eq!(m.try_convert_image_to_png(), Some(Ok(())));
    assert_eq!(m.is_image_and_png(), Ok(true));
    let mut expected = bmp;
    overwrite_from_start(&mut expected, &png);
    match &m.type_ {
        MessageType::Image { name, content } => {
            assert_eq!(name, "pic.png");
            assert_eq!(content, &expected);
        }
        _ => panic!("not an image"),
    }
}

#[test]
fn typed_lines_become_messages() {
    assert!(message_of(Input::Quit, Ok(vec![]), String::new()).unwrap().is_quit());
    let t = message_of(Input::Text("hi".to_string()), Ok(vec![]), String::new()).unwrap();
    assert_eq!(t.display(), "[unknown]: hi");
    let f = message_of(Input::File("a.txt".to_string()), Ok(vec![1, 2]), "x".to_string()).unwrap();
    match f.type_ {
        MessageType::File { name, content } => assert_eq!((name, content), ("a.txt".to_string(), vec![1, 2])),
        _ => panic!("not a file"),
    }
    let i = message_of(Input::Image("p.jpg".to_string()), Ok(vec![3]), "123.png".to_string()).unwrap();
    match i.type_ {
        MessageType::Image { name, content } => assert_eq!((name, content), ("123.png".to_string(), vec![3])),
        _ => panic!("not an image"),
    }
    assert_eq!(
        message_of(Input::File("missing".to_string()), Err("not found".to_string()), String::new()).err(),
        Some("not found".to_string())
    );
}
