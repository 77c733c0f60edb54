use entity_arena::device::{
    check_device_extension_support, check_validation_layer_support, find_graphics_family,
    find_queue_family, first_suitable, is_device_suitable, is_offered,
};
use entity_arena::structs::{QueueFamily, QueueFamilyIndices};

fn family(queue_count: u32, graphics: bool, present: bool) -> QueueFamily {
    QueueFamily { queue_count, graphics, present }
}

fn names(list: &[&str]) -> Vec<String> {
    list.iter().map(|s| s.to_string()).collect()
}

#[test]
fn queue_family_indices_start_empty() {
    let indices = QueueFamilyIndices::new();
    assert_eq!(indices.graphics_family, None);
    assert_eq!(indices.present_family, None);
    assert!(!indices.is_complete());
}

#[test]
fn queue_family_indices_complete_needs_both() {
    let only_graphics = QueueFamilyIndices { graphics_family: Some(0), present_family: None };
    let only_present = QueueFamilyIndices { graphics_family: None, present_family: Some(2) };
    let both = QueueFamilyIndices { graphics_family: Some(0), present_family: Some(2) };
    assert!(!only_graphics.is_complete());
    assert!(!only_present.is_complete());
    assert!(both.is_complete());
}

#[test]
fn search_takes_one_family_that_serves_both() {
    let families = vec![family(0, true, true), family(4, true, true), family(1, true, true)];
    let found = find_queue_family(&families);
    assert_eq!(found, QueueFamilyIndices { graphics_family: Some(1), present_family: Some(1) });
}

#[test]
fn search_keeps_the_latest_family_until_complete() {
    let families = vec![
        family(1, true, false),
        family(1, true, false),
        family(1, false, true),
        family(1, true, true),
    ];
    let found = find_queue_family(&families);
    assert_eq!(found, QueueFamilyIndices { graphics_family: Some(1), present_family: Some(2) });
}

#[test]
fn search_without_present_support_is_incomplete() {
    let families = vec![family(2, true, false), family(0, false, true), family(3, false, false)];
    let found = find_queue_family(&families);
    assert_eq!(found, QueueFamilyIndices { graphics_family: Some(0), present_family: None });
    assert!(!found.is_complete());
    assert_eq!(find_queue_family(&Vec::new()), QueueFamilyIndices::new());
}

#[test]
fn graphics_family_is_the_first_that_serves() {
    let families = vec![family(0, true, false), family(2, false, true), family(1, true, false)];
    assert_eq!(find_graphics_family(&families), Some(2));
    assert_eq!(find_graphics_family(&families[..2].to_vec()), None);
    assert_eq!(find_graphics_family(&Vec::new()), None);
}

#[test]
fn first_suitable_device_wins() {
    assert_eq!(first_suitable(&vec![false, true, true]), Some(1));
    assert_eq!(first_suitable(&vec![true]), Some(0));
    assert_eq!(first_suitable(&vec![false, false]), None);
    assert_eq!(first_suitable(&Vec::new()), None);
}

#[test]
fn every_required_extension_must_be_offered() {
    let available = names(&["VK_KHR_surface", "VK_KHR_swapchain", "VK_EXT_debug_utils"]);
    assert!(check_device_extension_support(&available, &names(&["VK_KHR_swapchain"])));
    assert!(check_device_extension_support(&available, &Vec::new()));
    assert!(!check_device_extension_support(
        &available,
        &names(&["VK_KHR_swapchain", "VK_KHR_missing"])
    ));
    assert!(!check_device_extension_support(&Vec::new(), &names(&["VK_KHR_swapchain"])));
    assert!(is_offered(&available, &"VK_KHR_surface".to_string()));
    assert!(!is_offered(&available, &"VK_KHR_surfac".to_string()));
}

#[test]
fn one_required_layer_is_enough() {
    let available = names(&["VK_LAYER_KHRONOS_validation", "VK_LAYER_other"]);
    assert!(check_validation_layer_support(&available, &names(&["VK_LAYER_KHRONOS_validation"])));
    assert!(check_validation_layer_support(
        &available,
        &names(&["VK_LAYER_missing", "VK_LAYER_other"])
    ));
    assert!(!check_validation_layer_support(&available, &names(&["VK_LAYER_missing"])));
    assert!(!check_validation_layer_support(&available, &Vec::new()));
    assert!(!check_validation_layer_support(
        &Vec::new(),
        &names(&["VK_LAYER_KHRONOS_validation"])
    ));
}

#[test]
fn a_device_must_pass_every_test() {
    let complete = QueueFamilyIndices { graphics_family: Some(0), present_family: Some(0) };
    let partial = QueueFamilyIndices { graphics_family: Some(0), present_family: None };
    assert!(is_device_suitable(&complete, true, true));
    assert!(!is_device_suitable(&partial, true, true));
    assert!(!is_device_suitable(&complete, false, true));
    assert!(!is_device_suitable(&complete, true, false));
}

#[test]
fn queues_are_created_once_per_family() {
    let same = QueueFamilyIndices { graphics_family: Some(3), present_family: Some(3) };
    let apart = QueueFamilyIndices { graphics_family: Some(3), present_family: Some(1) };
    assert_eq!(same.unique_families(), vec![3]);
    assert_eq!(apart.unique_families(), vec![3, 1]);
    assert_eq!(same.sharing_families(), Vec::<u32>::new());
    assert_eq!(apart.sharing_families(), vec![3, 1]);
    assert_eq!(QueueFamilyIndices::new().sharing_families(), Vec::<u32>::new());
}
