use cargo_bundle::category::{canonicalize, Category};

#[test]
fn category_from_string_ok() {
    // Canonical name of category works:
    assert_eq!(Category::from_str("Education"), Ok(Category::Education));
    assert_eq!(
        Category::from_str("Developer Tool"),
        Ok(Category::DeveloperTool)
    );
    // Lowercase, spaces, and hyphens are fine:
    assert_eq!(
        Category::from_str(" puzzle  game "),
        Ok(Category::PuzzleGame)
    );
    assert_eq!(
        Category::from_str("Role-playing game"),
        Ok(Category::RolePlayingGame)
    );
    // Using macOS LSApplicationCategoryType value is fine:
    assert_eq!(
        Category::from_str("public.app-category.developer-tools"),
        Ok(Category::DeveloperTool)
    );
    assert_eq!(
        Category::from_str("public.app-category.role-playing-games"),
        Ok(Category::RolePlayingGame)
    );
    // Using GNOME category name is fine:
    assert_eq!(
        Category::from_str("Development"),
        Ok(Category::DeveloperTool)
    );
    assert_eq!(Category::from_str("LogicGame"), Ok(Category::PuzzleGame));
    // Using common abbreviations is fine:
    assert_eq!(Category::from_str("RPG"), Ok(Category::RolePlayingGame));
}

#[test]
fn category_from_string_did_you_mean() {
    assert_eq!(Category::from_str("gaming"), Err(Some("Game")));
    assert_eq!(Category::from_str("photos"), Err(Some("Photography")));
    assert_eq!(Category::from_str("strategery"), Err(Some("Strategy Game")));
}

#[test]
fn category_from_string_totally_wrong() {
    assert_eq!(Category::from_str("fhqwhgads"), Err(None));
    assert_eq!(Category::from_str("WHARRGARBL"), Err(None));
}

#[test]
fn ls_application_category_type_round_trip() {
    let values = &[
        "public.app-category.business",
        "public.app-category.developer-tools",
        "public.app-category.education",
        "public.app-category.entertainment",
        "public.app-category.finance",
        "public.app-category.games",
        "public.app-category.action-games",
        "public.app-category.adventure-games",
        "public.app-category.arcade-games",
        "public.app-category.board-games",
        "public.app-category.card-games",
        "public.app-category.casino-games",
        "public.app-category.dice-games",
        "public.app-category.educational-games",
        "public.app-category.family-games",
        "public.app-category.kids-games",
        "public.app-category.music-games",
        "public.app-category.puzzle-games",
        "public.app-category.racing-games",
        "public.app-category.role-playing-games",
        "public.app-category.simulation-games",
        "public.app-category.sports-games",
        "public.app-category.strategy-games",
        "public.app-category.trivia-games",
        "public.app-category.word-games",
        "public.app-category.graphics-design",
        "public.app-category.healthcare-fitness",
        "public.app-category.lifestyle",
        "public.app-category.medical",
        "public.app-category.music",
        "public.app-category.news",
        "public.app-category.photography",
        "public.app-category.productivity",
        "public.app-category.reference",
        "public.app-category.social-networking",
        "public.app-category.sports",
        "public.app-category.travel",
        "public.app-category.utilities",
        "public.app-category.video",
        "public.app-category.weather",
    ];
    // Test that if the user uses an LSApplicationCategoryType string as
    // the category string, they will get back that same string for the
    // macOS app bundle LSApplicationCategoryType.
    for &value in values.iter() {
        let category = Category::from_str(value).expect(value);
        assert_eq!(category.osx_application_category_type(), value);
    }
}

#[test]
fn canonicalize_strips_and_lowercases() {
    assert_eq!(canonicalize("Role-Playing Game"), "roleplayinggame");
    assert_eq!(canonicalize("public.app-category.word-games"), "wordgames");
    assert_eq!(canonicalize(""), "");
    // The taxonomy prefix is only stripped from the very front.
    assert_eq!(canonicalize("x public.app-category.games"), "xpublic.appcategory.games");
}

#[test]
fn canonicalize_is_idempotent() {
    for input in ["Role-Playing Game", "public.app-category.games", " MIXED case-Words ", "fhqwhgads"] {
        let once = canonicalize(input);
        let twice = canonicalize(&once);
        assert_eq!(once, twice);
        // Resolution agrees between a string and its canonical form.
        assert_eq!(Category::from_str(input), Category::from_str(&once));
    }
}

#[test]
fn every_alias_resolves_exactly() {
    // Spot checks that aliases resolve to their own category even when a
    // near-duplicate alias exists for another category.
    assert_eq!(Category::from_str("game"), Ok(Category::Game));
    assert_eq!(Category::from_str("games"), Ok(Category::Game));
    assert_eq!(Category::from_str("sportsgame"), Ok(Category::SportsGame));
    assert_eq!(Category::from_str("sports"), Ok(Category::Sports));
    assert_eq!(Category::from_str("utilities"), Ok(Category::Utility));
    assert_eq!(Category::from_str("utility"), Ok(Category::Utility));
}

#[test]
fn gnome_projection_spot_checks() {
    assert_eq!(Category::PuzzleGame.gnome_desktop_categories(), "Game;LogicGame;");
    assert_eq!(Category::Music.gnome_desktop_categories(), "AudioVideo;Audio;Music;");
    assert_eq!(Category::DeveloperTool.gnome_desktop_categories(), "Development;");
}
