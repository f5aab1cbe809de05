use regbar::ext::keyboard_layout_ext::{KeyboardLayout, KeyboardLayoutEx};

fn database() -> Vec<KeyboardLayout> {
    let layouts = xkb_data::keyboard_layouts().expect("the layout database");
    layouts
        .layouts()
        .iter()
        .map(|layout| KeyboardLayout {
            name: layout.name().to_string(),
            description: layout.description().to_string(),
        })
        .collect()
}

#[test]
fn test_find_layout() -> Result<(), &'static str> {
    let result = KeyboardLayout::find(&database(), "Russian").expect("Wasn't found!");
    assert_eq!(result.name, "ru");
    Ok(())
}

#[test]
fn localize_layout() -> Result<(), &'static str> {
    let result = KeyboardLayout::find(&database(), "Russian").expect("Wasn't found!");
    let localized = result.localized();
    println!("localized = {:?}", localized);
    assert_ne!(localized, None);
    Ok(())
}
