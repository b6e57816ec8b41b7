use amqprs::channel_id_repo::ChannelIdRepository;
use amqprs::channel_manager::{ChannelManager, ChannelResource, MethodHeader};

#[test]
fn allocate_lowest_first() {
    let mut repo = ChannelIdRepository::new(3);
    assert_eq!(repo.allocate(), Some(1));
    assert_eq!(repo.allocate(), Some(2));
    assert!(repo.release(&1));
    assert_eq!(repo.allocate(), Some(1));
    assert_eq!(repo.allocate(), Some(3));
    assert_eq!(repo.allocate(), None);
}

#[test]
fn reserve_checks_range_and_use() {
    let mut repo = ChannelIdRepository::new(10);
    assert!(!repo.reserve(&0));
    assert!(!repo.reserve(&11));
    assert!(repo.reserve(&10));
    assert!(!repo.reserve(&10));
    assert!(repo.release(&10));
    assert!(!repo.release(&10));
    assert!(repo.reserve(&10));
}

#[test]
fn zero_channel_max_means_no_limit() {
    let mut repo = ChannelIdRepository::new(0);
    assert!(repo.reserve(&u16::MAX));
    assert_eq!(repo.allocate(), Some(1));
}

#[test]
fn closed_ids_are_reused() {
    let mut repo = ChannelIdRepository::new(4);
    for want in 1..=4u16 {
        assert_eq!(repo.allocate(), Some(want));
    }
    assert_eq!(repo.allocate(), None);
    assert!(repo.release(&2));
    assert!(repo.release(&4));
    assert_eq!(repo.allocate(), Some(2));
    assert_eq!(repo.allocate(), Some(4));
    assert_eq!(repo.allocate(), None);
}

fn table(max: u16) -> ChannelManager<&'static str, u32> {
    ChannelManager::new(max, ChannelResource::new(None))
}

#[test]
fn channel_overrun_is_refused() {
    let mut m = table(2);
    assert_eq!(m.insert_resource(Some(3), ChannelResource::new(None)), None);
    assert_eq!(m.insert_resource(Some(0), ChannelResource::new(None)), None);
    assert_eq!(m.insert_resource(Some(2), ChannelResource::new(None)), Some(2));
    assert_eq!(m.insert_resource(Some(2), ChannelResource::new(None)), None);
    assert_eq!(m.insert_resource(None, ChannelResource::new(None)), Some(1));
    assert_eq!(m.insert_resource(None, ChannelResource::new(None)), None);
}

#[test]
fn responders_fire_once() {
    let mut m = table(5);
    let id = m.insert_resource(None, ChannelResource::new(Some(9))).unwrap();
    let h = MethodHeader { class_id: 50, method_id: 11 };
    assert_eq!(m.insert_responder(&id, &h, "first"), None);
    assert_eq!(m.insert_responder(&id, &h, "second"), Some("first"));
    assert_eq!(m.remove_responder(&id, &h), Some("second"));
    assert_eq!(m.remove_responder(&id, &h), None);
    assert_eq!(m.get_dispatcher(&id), Some(&9));
}

#[test]
fn responder_on_closed_channel_is_not_kept() {
    let mut m = table(5);
    let h = MethodHeader { class_id: 20, method_id: 41 };
    assert_eq!(m.insert_responder(&3, &h, "x"), None);
    assert_eq!(m.remove_responder(&3, &h), None);
    let id = m.insert_resource(None, ChannelResource::new(None)).unwrap();
    m.insert_responder(&id, &h, "y");
    let removed = m.remove_resource(&id).unwrap();
    assert_eq!(removed.responders.len(), 1);
    assert_eq!(m.remove_responder(&id, &h), None);
    assert!(m.remove_resource(&id).is_none());
    assert!(m.remove_resource(&0).is_none());
}

#[test]
fn method_header_key() {
    assert_eq!(MethodHeader { class_id: 50, method_id: 11 }.key(), 50 * 65536 + 11);
}
