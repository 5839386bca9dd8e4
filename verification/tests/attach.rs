use warp::conversation::attach::{
    attachment_items, attachment_message, collect_files, conversation_directory, count_attachable,
    keep_attachable, missing_name, plan_attachments, AttachStep, Attaching, AttachmentKind,
    Location, Progression, Upload, UploadEvent,
};
use warp::conversation::message::Attachment;
use warp::conversation::MessageType;
use warp::error::Error;
use warp::file_name::{choose_name, file_name_of, NameChoice};
use warp::ids::Did;

fn stream(name: &str) -> Location {
    Location::Stream { name: name.to_string() }
}

fn disk(path: &str, is_file: bool) -> Location {
    Location::Disk { path: path.to_string(), is_file }
}

fn file(name: &str) -> Attachment {
    Attachment { name: name.to_string(), size: 3, reference: None }
}

const DIRECTORY: &str = "/chat_media/00000000-0000-0000-0000-00000000002a";

#[test]
fn directory_of_a_conversation() {
    assert_eq!(conversation_directory(42), DIRECTORY);
    assert_eq!(
        conversation_directory(0x0123_4567_89ab_cdef_fedc_ba98_7654_3210),
        "/chat_media/01234567-89ab-cdef-fedc-ba9876543210"
    );
}

#[test]
fn names_of_uploads_differ() {
    let files = vec![
        stream("a.txt"),
        disk("/tmp/a.txt", true),
        disk("/", true),
        Location::Constellation { path: "/x/y".to_string() },
        stream("b"),
        stream("b"),
    ];
    let steps = plan_attachments(42, &files, &vec!["a.txt".to_string()]);
    let names: Vec<Option<String>> = steps
        .iter()
        .map(|s| match s {
            AttachStep::Upload { name, path } => {
                assert_eq!(path, &format!("{DIRECTORY}/{name}"));
                Some(name.clone())
            }
            _ => None,
        })
        .collect();
    assert_eq!(names[0].as_deref(), Some("a (1).txt"));
    assert_eq!(names[1].as_deref(), Some("a (2).txt"));
    assert!(matches!(steps[2], AttachStep::Skipped));
    assert!(matches!(&steps[3], AttachStep::Existing { path } if path == "/x/y"));
    assert_eq!(names[4].as_deref(), Some("b"));
    assert_eq!(names[5].as_deref(), Some("b (1)"));
}

#[test]
fn names_run_out() {
    let mut items = vec!["a.b.c".to_string()];
    for i in 1..=2001 {
        items.push(format!("a.b ({i}).c"));
    }
    assert!(matches!(
        choose_name("a.b.c", &vec![], &items),
        NameChoice::Exhausted(name) if name == "a.b (2001).c"
    ));
    items.pop();
    assert!(matches!(
        choose_name("a.b.c", &vec![], &items),
        NameChoice::Free(name) if name == "a.b (2001).c"
    ));
    let hidden = vec![".c".to_string()];
    assert!(matches!(
        choose_name(".c", &vec![], &hidden),
        NameChoice::Free(name) if name == ".c (1)"
    ));
}

#[test]
fn file_names_of_paths() {
    for path in ["/usr/bin/", "tmp/foo.txt", "foo.txt/.", "foo.txt/.//", "foo.txt/..", "/", "", "..", "a/./b//", "."] {
        let expected = std::path::Path::new(path).file_name().map(|n| n.to_str().unwrap());
        assert_eq!(file_name_of(path).as_deref(), expected, "{path}");
    }
}

#[test]
fn only_files_are_attached() {
    let files = vec![disk("/a", false), disk("/b", true), stream("c")];
    assert_eq!(count_attachable(&files), 2);
    let kept = keep_attachable(files);
    assert_eq!(kept.len(), 2);
    assert!(matches!(&kept[0], Location::Disk { path, .. } if path == "/b"));
}

fn uploads() -> Vec<Upload> {
    vec![
        Upload { location: 1, event: UploadEvent::Progress },
        Upload { location: 1, event: UploadEvent::Complete { file: Some(file("b")) } },
        Upload { location: 2, event: UploadEvent::Failed },
        Upload { location: 3, event: UploadEvent::Complete { file: None } },
        Upload { location: 0, event: UploadEvent::Complete { file: Some(file("a")) } },
    ]
}

#[test]
fn outcome_comes_last() {
    let items = attachment_items(&uploads(), Ok(()));
    let shown: Vec<(usize, Progression)> = items
        .iter()
        .filter_map(|item| match item {
            AttachmentKind::AttachedProgress { location, progress } => Some((*location, *progress)),
            AttachmentKind::Pending(_) => None,
        })
        .collect();
    assert_eq!(
        shown,
        vec![
            (1, Progression::CurrentProgress),
            (1, Progression::ProgressComplete),
            (2, Progression::ProgressFailed),
            (3, Progression::ProgressComplete),
            (0, Progression::ProgressComplete),
        ]
    );
    assert_eq!(items.len(), 6);
    assert!(matches!(items[5], AttachmentKind::Pending(Ok(()))));
    let failed = attachment_items(&uploads(), Err(Error::MessageFound));
    assert!(matches!(failed[5], AttachmentKind::Pending(Err(Error::MessageFound))));
    let nothing = vec![Upload { location: 0, event: UploadEvent::Failed }];
    let items = attachment_items(&nothing, Ok(()));
    assert_eq!(items.len(), 2);
    assert!(matches!(items[1], AttachmentKind::Pending(Err(Error::NoAttachments))));
}

#[test]
fn attaching_ends_with_a_message() {
    let attaching = || Attaching {
        id: 5,
        conversation_id: 42,
        own: Did { hi: 0, lo: 1 },
        replied: Some(4),
        lines: vec!["see".to_string()],
        steps: vec![],
    };
    let message = attaching().finish(100, &uploads()).unwrap();
    assert_eq!((message.id, message.conversation_id, message.replied), (5, 42, Some(4)));
    assert_eq!(message.sender, Did { hi: 0, lo: 1 });
    assert_eq!(message.message_type, MessageType::Attachment);
    assert_eq!(message.lines, vec!["see"]);
    let names: Vec<&str> = message.attachments.iter().map(|f| f.name.as_str()).collect();
    assert_eq!(names, vec!["b", "a"]);
    assert_eq!(attaching().finish(100, &vec![]).err(), Some(Error::NoAttachments));
}

#[test]
fn stored_files_are_collected() {
    let files = collect_files(&uploads());
    let names: Vec<&str> = files.iter().map(|f| f.name.as_str()).collect();
    assert_eq!(names, vec!["b", "a"]);
}

#[test]
fn missing_files_are_named() {
    assert_eq!(missing_name("/x/y.png"), "y.png");
    assert_eq!(missing_name("/"), "/");
}

#[test]
fn message_with_files() {
    let own = Did { hi: 0, lo: 1 };
    let empty = attachment_message(5, 42, own, 100, vec![], vec![], None);
    assert_eq!(empty.err(), Some(Error::NoAttachments));
    let lines = vec!["see".to_string()];
    let message =
        attachment_message(5, 42, own, 100, vec![file("a")], lines.clone(), Some(4)).unwrap();
    assert_eq!(message.message_type, MessageType::Attachment);
    assert_eq!(message.lines, lines);
    assert_eq!(message.replied, Some(4));
    assert_eq!(message.attachments.len(), 1);
}
