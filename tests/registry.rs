use nuklear_backend_wgpu::registry::TextureRegistry;

#[test]
fn handles_follow_call_order() {
    let mut reg: TextureRegistry<&str> = TextureRegistry::new(2);
    assert_eq!(reg.add("font"), 1);
    assert_eq!(reg.add("icons"), 2);
    assert_eq!(reg.add("background"), 3);
    assert_eq!(reg.len(), 3);
    assert_eq!(reg.find_res(1), Some(&"font"));
    assert_eq!(reg.find_res(2), Some(&"icons"));
    assert_eq!(reg.find_res(3), Some(&"background"));
}

#[test]
fn handles_out_of_range_name_nothing() {
    let mut reg: TextureRegistry<u32> = TextureRegistry::new(0);
    assert_eq!(reg.find_res(0), None);
    assert_eq!(reg.find_res(1), None);
    reg.add(10);
    reg.add(20);
    assert_eq!(reg.find_res(0), None);
    assert_eq!(reg.find_res(3), None);
    assert_eq!(reg.find_res(-1), None);
    assert_eq!(reg.find_res(i32::MIN), None);
    assert_eq!(reg.find_res(i32::MAX), None);
}
