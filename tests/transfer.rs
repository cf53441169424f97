use hermod::message::{Message, MessageType};
use hermod::paths::{dir_file_destination, file_name};
use hermod::request::{Request, RequestMethod};
use hermod::config::ClientConfig;
use hermod::error::HermodError;
use hermod::host::Host;
use hermod::paths::trim_trailing_slashes;
use hermod::request::plan_requests;
use hermod::transfer::{
    batch_paths, download_action, expect_file, expect_metadata, listing_step, receive_all, upload_message,
    upload_messages, ListingStep, SinkAction,
};

#[test]
fn upload_then_download_is_identity() {
    let data: Vec<u8> = (0..200_000u32).map(|i| (i * 7) as u8).collect();
    let msgs = upload_messages(&data);
    assert_eq!(msgs.len(), 5);
    assert!(msgs[..4].iter().all(|m| m.get_type() == MessageType::Payload));
    assert_eq!(msgs[0].get_payload().len(), 65517);
    assert_eq!(msgs[4].get_type(), MessageType::EOF);
    assert_eq!(receive_all(&msgs), Some(data));
}

#[test]
fn tiny_file_upload() {
    let msgs = upload_messages(b"hello");
    assert_eq!(msgs.len(), 2);
    assert_eq!(receive_all(&msgs), Some(b"hello".to_vec()));
    let empty = upload_messages(b"");
    assert_eq!(empty.len(), 1);
    assert_eq!(receive_all(&empty), Some(Vec::new()));
}

#[test]
fn error_aborts_download() {
    let msgs = vec![
        Message::new(MessageType::Payload, b"part"),
        Message::new(MessageType::Error, &[]),
    ];
    assert_eq!(receive_all(&msgs), None);
    assert_eq!(receive_all(&[Message::new(MessageType::Payload, b"x")]), None);
    assert_eq!(download_action(MessageType::Error), SinkAction::Abort);
    assert_eq!(download_action(MessageType::Close), SinkAction::Fail);
}

#[test]
fn upload_message_for_reads() {
    let m = upload_message(b"abc");
    assert_eq!(m.get_type(), MessageType::Payload);
    assert_eq!(upload_message(b"").get_type(), MessageType::EOF);
}

#[test]
fn listing_batches_keep_order_and_budget() {
    let paths: Vec<Vec<u8>> = (0..40).map(|i| vec![b'a' + (i % 26) as u8; 4000]).collect();
    let batches = batch_paths(&paths).unwrap();
    assert_eq!(batches.len(), 3);
    for w in batches.windows(2) {
        let cost: usize = w[0].iter().map(|p| p.len() + 8).sum();
        assert!(cost + w[1][0].len() + 8 > 65509);
    }
    assert!(batches.iter().all(|b| b.iter().map(|p| p.len() + 8).sum::<usize>() <= 65509));
    let flat: Vec<Vec<u8>> = batches.into_iter().flatten().collect();
    assert_eq!(flat, paths);
    assert!(batch_paths(&Vec::new()).unwrap().is_empty());
    assert!(batch_paths(&vec![b"a".to_vec(), vec![b'x'; 65502]]).is_none());
    assert_eq!(batch_paths(&vec![vec![b'x'; 65501]]).unwrap().len(), 1);
}

#[test]
fn directory_download_destinations() {
    assert_eq!(dir_file_destination(b"dst", b"d", b"d/a.txt"), Some(b"dst/d".to_vec()));
    assert_eq!(dir_file_destination(b"dst", b"/srv/d", b"/srv/d/sub/b.txt"), Some(b"dst/d/sub".to_vec()));
    assert_eq!(dir_file_destination(b"dst", b"d", b"e/a.txt"), None);
    assert_eq!(file_name(b"/srv/d/sub/b.txt"), b"b.txt".to_vec());
}

#[test]
fn directory_upload_requests() {
    let files = vec![b"d/a.txt".to_vec(), b"d/sub/b.txt".to_vec()];
    let rs = Request::dir(b"d", b"dst", &files, RequestMethod::Upload).unwrap();
    assert_eq!(rs.len(), 2);
    assert_eq!(rs[0].source, b"d/a.txt".to_vec());
    assert_eq!(rs[0].destination, b"dst/d".to_vec());
    assert_eq!(rs[1].destination, b"dst/d/sub".to_vec());
    assert!(Request::dir(b"d", b"dst", &vec![b"x/a".to_vec()], RequestMethod::Upload).is_none());
}

#[test]
fn trailing_slashes_name_the_directory() {
    assert_eq!(trim_trailing_slashes(b"d//"), b"d".to_vec());
    assert_eq!(trim_trailing_slashes(b"/"), b"/".to_vec());
    let rs = Request::dir(b"d/", b"dst", &vec![b"d/a.txt".to_vec()], RequestMethod::Upload).unwrap();
    assert_eq!(rs[0].destination, b"dst/d".to_vec());
}

#[test]
fn listing_and_metadata_decisions() {
    assert_eq!(listing_step(MessageType::Payload), ListingStep::Append);
    assert_eq!(listing_step(MessageType::EOF), ListingStep::Done);
    assert_eq!(listing_step(MessageType::Error), ListingStep::Fail);
    assert_eq!(expect_metadata(MessageType::Metadata), Ok(()));
    assert_eq!(expect_metadata(MessageType::Error), Err(HermodError::Other));
    assert_eq!(expect_file(true), Err(HermodError::IsDir));
    assert_eq!(expect_file(false), Ok(()));
}

#[test]
fn run_plan_expands_uploaded_directories() {
    let cfg = ClientConfig::new(
        Host::with_alias(b"box"),
        vec![b"f.txt".to_vec(), b"d".to_vec()],
        b"dst".to_vec(),
        RequestMethod::Upload,
    );
    let listings = vec![None, Some(vec![b"d/a".to_vec(), b"d/s/b".to_vec()])];
    let rs = plan_requests(&cfg, &listings).unwrap();
    assert_eq!(rs.len(), 3);
    assert_eq!(rs[0].source, b"f.txt".to_vec());
    assert_eq!(rs[0].destination, b"dst".to_vec());
    assert_eq!(rs[2].source, b"d/s/b".to_vec());
    assert_eq!(rs[2].destination, b"dst/d/s".to_vec());
    assert!(plan_requests(&cfg, &vec![None]).is_none());
    assert!(plan_requests(&cfg, &vec![None, Some(vec![b"e/a".to_vec()])]).is_none());
}
