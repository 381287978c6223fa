use basalt::stylized_text::{stylize, stylize_char, FontStyle};

#[test]
fn test_stylize() {
    let text = "ABCDEFGHIJKLMNOPQRSTUVWXYZabcdefghijklmnopqrstuvwxyz0123456789";
    let tests = [
        (
            FontStyle::Script,
            "𝓐𝓑𝓒𝓓𝓔𝓕𝓖𝓗𝓘𝓙𝓚𝓛𝓜𝓝𝓞𝓟𝓠𝓡𝓢𝓣𝓤𝓥𝓦𝓧𝓨𝓩𝓪𝓫𝓬𝓭𝓮𝓯𝓰𝓱𝓲𝓳𝓴𝓵𝓶𝓷𝓸𝓹𝓺𝓻𝓼𝓽𝓾𝓿𝔀𝔁𝔂𝔃𝟎𝟏𝟐𝟑𝟒𝟓𝟔𝟕𝟖𝟗",
        ),
        (
            FontStyle::FrakturBold,
            "𝕬𝕭𝕮𝕯𝕰𝕱𝕲𝕳𝕴𝕵𝕶𝕷𝕸𝕹𝕺𝕻𝕼𝕽𝕾𝕿𝖀𝖁𝖂𝖃𝖄𝖅𝖆𝖇𝖈𝖉𝖊𝖋𝖌𝖍𝖎𝖏𝖐𝖑𝖒𝖓𝖔𝖕𝖖𝖗𝖘𝖙𝖚𝖛𝖜𝖝𝖞𝖟𝟎𝟏𝟐𝟑𝟒𝟓𝟔𝟕𝟖𝟗",
        ),
        (
            FontStyle::BlackBoardBold,
            "𝔸𝔹ℂ𝔻𝔼𝔽𝔾ℍ𝕀𝕁𝕂𝕃𝕄ℕ𝕆ℙℚℝ𝕊𝕋𝕌𝕍𝕎𝕏𝕐ℤ𝕒𝕓𝕔𝕕𝕖𝕗𝕘𝕙𝕚𝕛𝕜𝕝𝕞𝕟𝕠𝕡𝕢𝕣𝕤𝕥𝕦𝕧𝕨𝕩𝕪𝕫𝟘𝟙𝟚𝟛𝟜𝟝𝟞𝟟𝟠𝟡",
        ),
    ];

    tests
        .iter()
        .for_each(|test| assert_eq!(stylize(text, test.0), test.1));
}

#[test]
fn stylize_examples_of_each_style() {
    assert_eq!(stylize("My Heading", FontStyle::FrakturBold), "𝕸𝖞 𝕳𝖊𝖆𝖉𝖎𝖓𝖌");
    assert_eq!(
        stylize("Black Board Bold", FontStyle::BlackBoardBold),
        "𝔹𝕝𝕒𝕔𝕜 𝔹𝕠𝕒𝕣𝕕 𝔹𝕠𝕝𝕕"
    );
    assert_eq!(stylize("Fraktur Bold", FontStyle::FrakturBold), "𝕱𝖗𝖆𝖐𝖙𝖚𝖗 𝕭𝖔𝖑𝖉");
    assert_eq!(stylize("Script", FontStyle::Script), "𝓢𝓬𝓻𝓲𝓹𝓽");
}

#[test]
fn stylize_leaves_other_characters_as_they_are() {
    assert_eq!(stylize("", FontStyle::Script), "");
    assert_eq!(stylize("-. !é~", FontStyle::Script), "-. !é~");
    assert_eq!(stylize("0.29.0~beta", FontStyle::Script), "𝟎.𝟐𝟗.𝟎~𝓫𝓮𝓽𝓪");
}

#[test]
fn stylize_char_has_exact_code_points() {
    assert_eq!(stylize_char('A', FontStyle::Script), '\u{1D4D0}');
    assert_eq!(stylize_char('z', FontStyle::Script), '\u{1D503}');
    assert_eq!(stylize_char('9', FontStyle::Script), '\u{1D7D7}');
    assert_eq!(stylize_char('A', FontStyle::FrakturBold), '\u{1D56C}');
    assert_eq!(stylize_char('a', FontStyle::FrakturBold), '\u{1D586}');
    assert_eq!(stylize_char('0', FontStyle::FrakturBold), '\u{1D7CE}');
    assert_eq!(stylize_char('B', FontStyle::BlackBoardBold), '\u{1D539}');
    assert_eq!(stylize_char('C', FontStyle::BlackBoardBold), '\u{2102}');
    assert_eq!(stylize_char('H', FontStyle::BlackBoardBold), '\u{210D}');
    assert_eq!(stylize_char('N', FontStyle::BlackBoardBold), '\u{2115}');
    assert_eq!(stylize_char('P', FontStyle::BlackBoardBold), '\u{2119}');
    assert_eq!(stylize_char('Q', FontStyle::BlackBoardBold), '\u{211A}');
    assert_eq!(stylize_char('R', FontStyle::BlackBoardBold), '\u{211D}');
    assert_eq!(stylize_char('Z', FontStyle::BlackBoardBold), '\u{2124}');
    assert_eq!(stylize_char('b', FontStyle::BlackBoardBold), '\u{1D553}');
    assert_eq!(stylize_char('7', FontStyle::BlackBoardBold), '\u{1D7DF}');
    assert_eq!(stylize_char('@', FontStyle::BlackBoardBold), '@');
    assert_eq!(stylize_char('[', FontStyle::FrakturBold), '[');
    assert_eq!(stylize_char('`', FontStyle::Script), '`');
}
