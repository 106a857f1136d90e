use mochi_scheduler::ipc::protocol::{
    message_len, read_msg, write_msg, FrameError, Request, MAX_MSG_LEN,
};

type Parts = (Vec<String>, Option<String>, String, u32, i32, Vec<(String, String)>);

#[test]
fn write_then_read_roundtrips_a_message() {
    let sent = Request::Add {
        argv: vec!["echo".into(), "hi".into()],
        label: Some("x".into()),
        cwd: "/tmp".into(),
        gpus: 2,
        priority: 5,
        env: vec![("KEY".into(), "VALUE".into())],
    };
    let parts: Parts = match sent {
        Request::Add { argv, label, cwd, gpus, priority, env } => {
            (argv, label, cwd, gpus, priority, env)
        }
        other => panic!("unexpected variant: {other:?}"),
    };

    let written = write_msg(&serde_json::to_vec(&parts).unwrap());
    let body = read_msg(&written).unwrap();
    let (argv, label, cwd, gpus, priority, env): Parts = serde_json::from_slice(&body).unwrap();
    let got = Request::Add { argv, label, cwd, gpus, priority, env };

    match got {
        Request::Add { argv, label, cwd, gpus, priority, env } => {
            assert_eq!(argv, vec!["echo".to_string(), "hi".to_string()]);
            assert_eq!(label.as_deref(), Some("x"));
            assert_eq!(cwd, "/tmp");
            assert_eq!(gpus, 2);
            assert_eq!(priority, 5);
            assert_eq!(env, vec![("KEY".to_string(), "VALUE".to_string())]);
        }
        other => panic!("unexpected variant: {other:?}"),
    }
}

#[test]
fn read_rejects_an_oversized_frame() {
    // A length prefix past the cap must fail before any body is read.
    let len = (MAX_MSG_LEN as u32 + 1).to_be_bytes();
    let res = read_msg(&len);
    assert!(res.is_err());
    assert_eq!(res, Err(FrameError::TooLarge));
    assert_eq!(message_len(&len), Err(FrameError::TooLarge));
    assert_eq!(FrameError::TooLarge.message(), "message too large");
}

#[test]
fn a_frame_starts_with_its_length() {
    assert_eq!(write_msg(&[7, 8, 9]), vec![0, 0, 0, 3, 7, 8, 9]);
    assert_eq!(write_msg(&vec![1; 0x1_0203])[..4], [0, 1, 2, 3]);
    assert_eq!(message_len(&[0, 1, 2, 3]), Ok(0x1_0203));
    assert_eq!(message_len(&(MAX_MSG_LEN as u32).to_be_bytes()), Ok(MAX_MSG_LEN));
}

#[test]
fn a_frame_that_ends_early_is_refused() {
    assert_eq!(read_msg(&[0, 0]), Err(FrameError::Incomplete));
    assert_eq!(read_msg(&[0, 0, 0, 2, 1]), Err(FrameError::Incomplete));
    assert_eq!(FrameError::Incomplete.message(), "message incomplete");
}

#[test]
fn what_follows_a_frame_is_left_alone() {
    assert_eq!(read_msg(&[0, 0, 0, 1, 5, 6, 7]), Ok(vec![5]));
    assert_eq!(read_msg(&write_msg(&[])), Ok(vec![]));
}
