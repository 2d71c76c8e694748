use craft_model::craft_types;
use craft_model::error::Error;
use craft_model::item_with_amount;
use craft_model::items;
use craft_model::recipes;
use craft_model::store::Store;

fn smithing(id: i32) -> craft_types::Model {
    craft_types::Model {
        id,
        name: "Smithing".to_string(),
    }
}

fn iron_ore(id: i32) -> items::Model {
    items::Model {
        id,
        name: "Iron Ore".to_string(),
    }
}

#[test]
fn created_item_is_retrievable_equal() {
    let mut s = Store::new();
    let created = s.create_item(iron_ore(100)).unwrap();
    assert_eq!(created, iron_ore(100));
    let fetched = s.get_item(100).unwrap();
    assert_eq!(fetched, created);
}

#[test]
fn created_craft_type_is_retrievable_equal() {
    let mut s = Store::new();
    let created = s.create_craft_type(smithing(1)).unwrap();
    assert_eq!(created, smithing(1));
    assert_eq!(s.get_craft_type(1).unwrap(), created);
}

#[test]
fn get_missing_is_not_found() {
    let s = Store::new();
    assert_eq!(s.get_item(5), Err(Error::NotFound));
    assert_eq!(s.get_craft_type(5), Err(Error::NotFound));
    assert_eq!(s.get_recipe(5), Err(Error::NotFound));
    assert_eq!(s.get_item_with_amount(5), Err(Error::NotFound));
}

#[test]
fn duplicate_ids_are_constraint_violations() {
    let mut s = Store::new();
    s.create_craft_type(smithing(1)).unwrap();
    s.create_item(iron_ore(100)).unwrap();
    s.create_recipe(recipes::Model {
        id: 10,
        craft_type_id: 1,
    })
    .unwrap();
    s.create_item_with_amount(item_with_amount::Model {
        id: 1000,
        ingredient_id: 100,
        amount: 3,
        recipe_id: Some(10),
    })
    .unwrap();
    assert_eq!(
        s.create_craft_type(smithing(1)),
        Err(Error::ConstraintViolation)
    );
    assert_eq!(s.create_item(iron_ore(100)), Err(Error::ConstraintViolation));
    assert_eq!(
        s.create_recipe(recipes::Model {
            id: 10,
            craft_type_id: 1,
        }),
        Err(Error::ConstraintViolation)
    );
    assert_eq!(
        s.create_item_with_amount(item_with_amount::Model {
            id: 1000,
            ingredient_id: 100,
            amount: 1,
            recipe_id: None,
        }),
        Err(Error::ConstraintViolation)
    );
}

#[test]
fn amount_with_missing_ingredient_is_refused() {
    let mut s = Store::new();
    let r = s.create_item_with_amount(item_with_amount::Model {
        id: 1000,
        ingredient_id: 100,
        amount: 3,
        recipe_id: None,
    });
    assert_eq!(r, Err(Error::ConstraintViolation));
    assert_eq!(s.get_item_with_amount(1000), Err(Error::NotFound));
}

#[test]
fn amount_with_missing_recipe_is_refused() {
    let mut s = Store::new();
    s.create_item(iron_ore(100)).unwrap();
    let r = s.create_item_with_amount(item_with_amount::Model {
        id: 1000,
        ingredient_id: 100,
        amount: 3,
        recipe_id: Some(10),
    });
    assert_eq!(r, Err(Error::ConstraintViolation));
}

#[test]
fn recipe_with_missing_craft_type_is_refused() {
    let mut s = Store::new();
    let r = s.create_recipe(recipes::Model {
        id: 10,
        craft_type_id: 1,
    });
    assert_eq!(r, Err(Error::ConstraintViolation));
}

#[test]
fn unattached_amount_is_kept_but_invisible_to_recipes() {
    let mut s = Store::new();
    s.create_craft_type(smithing(1)).unwrap();
    s.create_item(iron_ore(100)).unwrap();
    s.create_recipe(recipes::Model {
        id: 10,
        craft_type_id: 1,
    })
    .unwrap();
    let row = item_with_amount::Model {
        id: 1000,
        ingredient_id: 100,
        amount: 2,
        recipe_id: None,
    };
    assert_eq!(s.create_item_with_amount(row), Ok(row));
    assert_eq!(s.get_item_with_amount(1000), Ok(row));
    assert_eq!(s.items_with_amount_for_recipe(10), vec![]);
    assert_eq!(s.items_with_amount_for_recipe(0), vec![]);
    assert_eq!(s.items_with_amount_for_recipe(1000), vec![]);
}

#[test]
fn negative_and_zero_amounts_are_not_rejected() {
    let mut s = Store::new();
    s.create_item(iron_ore(100)).unwrap();
    for (id, amount) in [(1, -5), (2, 0)] {
        let row = item_with_amount::Model {
            id,
            ingredient_id: 100,
            amount,
            recipe_id: None,
        };
        assert_eq!(s.create_item_with_amount(row), Ok(row));
    }
}

#[test]
fn deleting_item_cascades_to_all_referencing_rows() {
    let mut s = Store::new();
    s.create_item(iron_ore(100)).unwrap();
    s.create_item(items::Model {
        id: 101,
        name: "Coal".to_string(),
    })
    .unwrap();
    for id in [1, 2, 3] {
        s.create_item_with_amount(item_with_amount::Model {
            id,
            ingredient_id: 100,
            amount: id,
            recipe_id: None,
        })
        .unwrap();
    }
    s.create_item_with_amount(item_with_amount::Model {
        id: 4,
        ingredient_id: 101,
        amount: 9,
        recipe_id: None,
    })
    .unwrap();
    assert_eq!(s.amounts_for_item(100).len(), 3);
    assert_eq!(s.delete_item(100), Ok(()));
    assert_eq!(s.amounts_for_item(100), vec![]);
    assert_eq!(s.get_item(100), Err(Error::NotFound));
    for id in [1, 2, 3] {
        assert_eq!(s.get_item_with_amount(id), Err(Error::NotFound));
    }
    let survivor = s.get_item_with_amount(4).unwrap();
    assert_eq!(survivor.ingredient_id, 101);
    assert_eq!(s.list_items_with_amount().len(), 1);
}

#[test]
fn deleting_recipe_leaves_rows_dangling() {
    let mut s = Store::new();
    s.create_craft_type(smithing(1)).unwrap();
    s.create_item(iron_ore(100)).unwrap();
    s.create_recipe(recipes::Model {
        id: 10,
        craft_type_id: 1,
    })
    .unwrap();
    let row = item_with_amount::Model {
        id: 1000,
        ingredient_id: 100,
        amount: 3,
        recipe_id: Some(10),
    };
    s.create_item_with_amount(row).unwrap();
    assert_eq!(s.delete_recipe(10), Ok(()));
    assert_eq!(s.get_recipe(10), Err(Error::NotFound));
    assert_eq!(s.items_with_amount_for_recipe(10), vec![row]);
    assert_eq!(s.get_item_with_amount(1000), Ok(row));
}

#[test]
fn scenario_smithing_iron_ore() {
    let mut s = Store::new();
    s.create_craft_type(smithing(1)).unwrap();
    s.create_recipe(recipes::Model {
        id: 10,
        craft_type_id: 1,
    })
    .unwrap();
    s.create_item(iron_ore(100)).unwrap();
    s.create_item_with_amount(item_with_amount::Model {
        id: 1000,
        ingredient_id: 100,
        amount: 3,
        recipe_id: Some(10),
    })
    .unwrap();
    let rows = s.items_with_amount_for_recipe(10);
    assert_eq!(rows.len(), 1);
    assert_eq!(rows[0].id, 1000);
    assert_eq!(rows[0].ingredient_id, 100);
    assert_eq!(rows[0].amount, 3);
    s.delete_item(100).unwrap();
    assert_eq!(s.items_with_amount_for_recipe(10), vec![]);
}

#[test]
fn deleting_referenced_craft_type_is_refused() {
    let mut s = Store::new();
    s.create_craft_type(smithing(1)).unwrap();
    s.create_recipe(recipes::Model {
        id: 10,
        craft_type_id: 1,
    })
    .unwrap();
    assert_eq!(s.delete_craft_type(1), Err(Error::ConstraintViolation));
    assert_eq!(s.delete_recipe(10), Ok(()));
    assert_eq!(s.delete_craft_type(1), Ok(()));
    assert_eq!(s.get_craft_type(1), Err(Error::NotFound));
}

#[test]
fn delete_missing_is_not_found() {
    let mut s = Store::new();
    assert_eq!(s.delete_craft_type(1), Err(Error::NotFound));
    assert_eq!(s.delete_item(1), Err(Error::NotFound));
    assert_eq!(s.delete_recipe(1), Err(Error::NotFound));
    assert_eq!(s.delete_item_with_amount(1), Err(Error::NotFound));
}

#[test]
fn update_replaces_the_row() {
    let mut s = Store::new();
    s.create_craft_type(smithing(1)).unwrap();
    let renamed = craft_types::Model {
        id: 1,
        name: "Blacksmithing".to_string(),
    };
    assert_eq!(s.update_craft_type(1, renamed.clone()), Ok(renamed.clone()));
    assert_eq!(s.get_craft_type(1), Ok(renamed));
}

#[test]
fn update_missing_is_not_found() {
    let mut s = Store::new();
    assert_eq!(s.update_craft_type(1, smithing(1)), Err(Error::NotFound));
    assert_eq!(s.update_item(1, iron_ore(1)), Err(Error::NotFound));
    assert_eq!(
        s.update_recipe(
            1,
            recipes::Model {
                id: 1,
                craft_type_id: 1,
            }
        ),
        Err(Error::NotFound)
    );
    assert_eq!(
        s.update_item_with_amount(
            1,
            item_with_amount::Model {
                id: 1,
                ingredient_id: 1,
                amount: 1,
                recipe_id: None,
            }
        ),
        Err(Error::NotFound)
    );
}

#[test]
fn update_item_key_change_is_refused_while_referenced() {
    let mut s = Store::new();
    s.create_item(iron_ore(100)).unwrap();
    s.create_item_with_amount(item_with_amount::Model {
        id: 1,
        ingredient_id: 100,
        amount: 1,
        recipe_id: None,
    })
    .unwrap();
    let moved = items::Model {
        id: 200,
        name: "Iron Ore".to_string(),
    };
    assert_eq!(s.update_item(100, moved), Err(Error::ConstraintViolation));
    assert_eq!(s.get_item(100).unwrap(), iron_ore(100));
}

#[test]
fn update_item_key_change_succeeds_when_unreferenced() {
    let mut s = Store::new();
    s.create_item(iron_ore(100)).unwrap();
    let moved = items::Model {
        id: 200,
        name: "Iron Ore".to_string(),
    };
    assert_eq!(s.update_item(100, moved.clone()), Ok(moved.clone()));
    assert_eq!(s.get_item(100), Err(Error::NotFound));
    assert_eq!(s.get_item(200), Ok(moved));
}

#[test]
fn update_amount_with_missing_recipe_is_refused() {
    let mut s = Store::new();
    s.create_item(iron_ore(100)).unwrap();
    let row = item_with_amount::Model {
        id: 1,
        ingredient_id: 100,
        amount: 1,
        recipe_id: None,
    };
    s.create_item_with_amount(row).unwrap();
    let attached = item_with_amount::Model {
        recipe_id: Some(10),
        ..row
    };
    assert_eq!(
        s.update_item_with_amount(1, attached),
        Err(Error::ConstraintViolation)
    );
    assert_eq!(s.get_item_with_amount(1), Ok(row));
}

#[test]
fn lists_keep_insertion_order() {
    let mut s = Store::new();
    for id in [3, 1, 2] {
        s.create_craft_type(smithing(id)).unwrap();
        s.create_item(iron_ore(id)).unwrap();
    }
    let craft_ids: Vec<i32> = s.list_craft_types().iter().map(|m| m.id).collect();
    assert_eq!(craft_ids, vec![3, 1, 2]);
    let item_ids: Vec<i32> = s.list_items().iter().map(|m| m.id).collect();
    assert_eq!(item_ids, vec![3, 1, 2]);
    assert_eq!(s.list_recipes(), vec![]);
    assert_eq!(s.list_items_with_amount(), vec![]);
}

#[test]
fn recipes_for_craft_type_filters_by_category() {
    let mut s = Store::new();
    s.create_craft_type(smithing(1)).unwrap();
    s.create_craft_type(craft_types::Model {
        id: 2,
        name: "Alchemy".to_string(),
    })
    .unwrap();
    for (id, cid) in [(10, 1), (11, 2), (12, 1)] {
        s.create_recipe(recipes::Model {
            id,
            craft_type_id: cid,
        })
        .unwrap();
    }
    let ids: Vec<i32> = s.recipes_for_craft_type(1).iter().map(|m| m.id).collect();
    assert_eq!(ids, vec![10, 12]);
    assert_eq!(s.recipes_for_craft_type(3), vec![]);
}

#[test]
fn update_craft_type_key_change_is_refused_while_referenced() {
    let mut s = Store::new();
    s.create_craft_type(smithing(1)).unwrap();
    s.create_recipe(recipes::Model {
        id: 10,
        craft_type_id: 1,
    })
    .unwrap();
    let moved = craft_types::Model {
        id: 2,
        name: "Smithing".to_string(),
    };
    assert_eq!(
        s.update_craft_type(1, moved),
        Err(Error::ConstraintViolation)
    );
    assert_eq!(s.get_craft_type(1), Ok(smithing(1)));
}

#[test]
fn update_recipe_key_change_leaves_rows_dangling() {
    let mut s = Store::new();
    s.create_craft_type(smithing(1)).unwrap();
    s.create_item(iron_ore(100)).unwrap();
    s.create_recipe(recipes::Model {
        id: 10,
        craft_type_id: 1,
    })
    .unwrap();
    let row = item_with_amount::Model {
        id: 1000,
        ingredient_id: 100,
        amount: 3,
        recipe_id: Some(10),
    };
    s.create_item_with_amount(row).unwrap();
    let moved = recipes::Model {
        id: 11,
        craft_type_id: 1,
    };
    assert_eq!(s.update_recipe(10, moved), Ok(moved));
    assert_eq!(s.items_with_amount_for_recipe(10), vec![row]);
    assert_eq!(s.items_with_amount_for_recipe(11), vec![]);
}

#[test]
fn deleting_amount_row_removes_only_that_row() {
    let mut s = Store::new();
    s.create_item(iron_ore(100)).unwrap();
    for id in [1, 2] {
        s.create_item_with_amount(item_with_amount::Model {
            id,
            ingredient_id: 100,
            amount: id,
            recipe_id: None,
        })
        .unwrap();
    }
    assert_eq!(s.delete_item_with_amount(1), Ok(()));
    assert_eq!(s.get_item_with_amount(1), Err(Error::NotFound));
    assert_eq!(s.get_item_with_amount(2).unwrap().amount, 2);
    assert_eq!(s.get_item(100), Ok(iron_ore(100)));
}

#[test]
fn ingredient_for_amount_resolves_the_item() {
    let mut s = Store::new();
    s.create_item(iron_ore(100)).unwrap();
    s.create_item_with_amount(item_with_amount::Model {
        id: 1,
        ingredient_id: 100,
        amount: 4,
        recipe_id: None,
    })
    .unwrap();
    assert_eq!(s.ingredient_for_amount(1), Ok(iron_ore(100)));
    assert_eq!(s.ingredient_for_amount(2), Err(Error::NotFound));
}
