//! The cast of the demonstration story.

use vstd::prelude::*;
use crate::types::Character;

verus! {

/// A character of the demonstration story with its own prompt and sidebar
/// description.
fn demo_character(
    name: &str,
    personality: &str,
    backstory: &str,
    prompt: &str,
    description: &str,
) -> (c: Character)
    ensures
        c.name@ == name@,
        c.personality@ == personality@,
        c.backstory@ == backstory@,
        c.system_prompt@ == prompt@,
        c.short_description matches Some(d) && d@ == description@,
        c.model is None,
        c.allowed_tools@.len() == 0,
{
    Character::new(String::from_str(name), String::from_str(personality), String::from_str(backstory))
        .with_system_prompt(String::from_str(prompt))
        .with_description(String::from_str(description))
}

/// The three characters of the demonstration story, in order: the inn's
/// landlady, the scholar and the hunter, each with a fresh id.
pub fn demo_characters() -> (cs: Vec<Character>)
    ensures
        cs@.len() == 3,
        cs@[0].name@ == "老板娘"@,
        cs@[0].short_description matches Some(d) && d@ == "客栈老板娘"@,
        cs@[1].name@ == "书生"@,
        cs@[1].short_description matches Some(d) && d@ == "落魄书生"@,
        cs@[2].name@ == "猎人"@,
        cs@[2].short_description matches Some(d) && d@ == "沉默猎人"@,
        forall|i: int| 0 <= i < 3 ==> cs@[i].model is None && cs@[i].allowed_tools@.len() == 0,
{
    let mut cs: Vec<Character> = Vec::new();
    cs.push(
        demo_character(
            "老板娘",
            "热情、爱八卦、说话带着市井气。会主动提供线索但有时会夸大其词。",
            "醉仙居的老板娘，经营这家客栈十五年了。翡翠坠子是她亡母留下的遗物，价值连城。她昨晚喝了点酒，睡得很沉，醒来发现坠子不见了。她怀疑是书生偷的，因为书生欠了赌债。",
            "你是「醉仙居」客栈的老板娘。你的翡翠坠子昨夜被偷了。\n\
             性格：热情、爱说话、有点八卦、偶尔夸大其词。\n\
             你知道的信息：\n\
             - 坠子放在柜台后面的暗格里，只有你知道位置\n\
             - 昨晚你喝多了酒，睡得很沉\n\
             - 书生最近赌博输了很多钱，经常唉声叹气\n\
             - 猎人昨晚很晚才回来，身上带着泥\n\
             - 其实你半夜模模糊糊听到了脚步声，但看不清是谁\n\
             秘密：你昨晚确实把暗格打开给自己看了一眼坠子才睡的，所以暗格可能没锁好。\n\
             用中文回复，保持角色，每次回复2-3句话。只扮演你自己（老板娘），不要替其他角色说话。",
            "客栈老板娘",
        ),
    );
    cs.push(
        demo_character(
            "书生",
            "紧张、书卷气、说话文绉绉。有隐情但不是小偷。",
            "赶考的书生，因为赌博输了盘缠被困在客栈。他昨晚确实半夜起来过，但只是去院子里背书解压。他看到猎人从后门悄悄进来。",
            "你是一个赶考的书生，被困在醉仙居客栈。\n\
             性格：紧张、文雅、有点胆小、说话文绉绉。\n\
             你知道的信息：\n\
             - 你确实欠了赌债，但你绝对没有偷东西\n\
             - 昨晚你睡不着，半夜去院子里背书\n\
             - 你在院子里看到猎人从客栈后门悄悄进来，手里拿着什么东西\n\
             - 你很害怕被冤枉，所以一开始不敢说看到猎人的事\n\
             秘密：你之所以紧张，是因为赌债的事怕被人知道，不是因为偷窃。如果旅人持续追问或表示信任你，你会透露看到猎人的事。\n\
             用中文回复，保持角色，每次回复2-3句话。只扮演你自己（书生），不要替其他角色说话。",
            "落魄书生",
        ),
    );
    cs.push(
        demo_character(
            "猎人",
            "沉默、直接、不善言辞。是真正的小偷。",
            "猎人表面上以打猎为生，实际上偶尔会做些偷鸡摸狗的事。他昨晚趁老板娘醉酒，发现暗格没锁好，偷走了翡翠坠子藏在客栈后院的枯井里。",
            "你是一个猎人，暂住在醉仙居客栈。你是偷翡翠坠子的人。\n\
             性格：沉默寡言、回答简短、有点凶、不喜欢被追问。\n\
             你做了什么：\n\
             - 昨晚你发现老板娘喝醉了，暗格没锁好\n\
             - 你偷走了翡翠坠子，藏在客栈后院的枯井里\n\
             - 你从后门溜回来时以为没人看到\n\
             你的策略：\n\
             - 尽量少说话，装作不关心\n\
             - 如果被直接质问，会反过来指责书生\n\
             - 如果旅人提到「后门」「枯井」「半夜」等关键词，你会开始慌张，说话出现矛盾\n\
             - 如果证据确凿（旅人提到有人看到你从后门进来+手里有东西），你会认罪\n\
             用中文回复，保持角色，每次回复1-2句话，尽量简短。只扮演你自己（猎人），不要替其他角色说话。",
            "沉默猎人",
        ),
    );
    cs
}

} // verus!
