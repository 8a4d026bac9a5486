//! The texts a room sends to its clients.

use crate::text::{decimal, decimal_digits};
use vstd::prelude::*;
use vstd::string::StringExecFns;

verus! {

/// The announcement that the player `player_id` has joined.
pub open spec fn joined_text(player_id: Seq<char>) -> Seq<char> {
    "Player "@ + player_id + " joined"@
}

/// The announcement that the player `player_id` has left.
pub open spec fn left_text(player_id: Seq<char>) -> Seq<char> {
    "Player "@ + player_id + " left"@
}

/// The notice that everybody is ready but that the room holds too few
/// players for its wolves: how many are missing, how many are there,
/// how many wolves there will be, and the id of the room to pass on.
pub open spec fn more_needed_text(missing: nat, present: nat, wolves: nat, room_id: Seq<char>) -> Seq<
    char,
> {
    "あと"@ + decimal_digits(missing) + "人必要です（現在"@ + decimal_digits(present)
        + "人、ワードウルフ"@ + decimal_digits(wolves) + "人）。部屋ID「"@ + room_id
        + "」を他のプレイヤーに共有してください！"@
}

/// The announcement that everybody is ready and the game begins.
pub open spec fn everyone_ready_text() -> Seq<char> {
    "全員準備完了！ゲームを開始します..."@
}

/// The announcement that roles and themes have been dealt.
pub open spec fn game_started_text() -> Seq<char> {
    "Game started! Check your roles and themes."@
}

/// The announcement of the discussion and its time limit, given in
/// seconds and shown in minutes and seconds.
pub open spec fn discussion_text(discussion_time: u64) -> Seq<char> {
    "全員確認完了！ディスカッションを開始します。制限時間: "@ + decimal_digits(
        (discussion_time / 60) as nat,
    ) + "分"@ + decimal_digits((discussion_time % 60) as nat) + "秒"@
}

/// The announcement of the vote.
pub open spec fn voting_text() -> Seq<char> {
    "投票フェーズが始まりました！ワードウルフだと思う人に投票してください。"@
}

/// The announcement of who was voted out and with how many votes.
pub open spec fn eliminated_text(player_id: Seq<char>, vote_count: nat) -> Seq<char> {
    player_id + "さんが"@ + decimal_digits(vote_count) + "票で脱落しました"@
}

/// The announcement that the time to vote ran out without a vote.
pub open spec fn nobody_voted_text() -> Seq<char> {
    "投票がなかったため、誰も脱落しませんでした"@
}

/// The announcement of the winners.
pub open spec fn game_over_text(citizens_won: bool) -> Seq<char> {
    if citizens_won {
        "ゲーム終了！市民の勝利です！ワードウルフを見つけました！"@
    } else {
        "ゲーム終了！ワードウルフの勝利です！市民を騙すことに成功しました！"@
    }
}

/// A line of chat: the marker `CHAT`, the name of the speaker and the
/// text, separated by bars.
pub open spec fn chat_text(player_name: Seq<char>, message: Seq<char>) -> Seq<char> {
    "CHAT|"@ + player_name + "|"@ + message
}

/// Announces that a player has joined.
pub fn player_joined(player_id: &str) -> (s: String)
    ensures
        s@ == joined_text(player_id@),
{
    let mut s = String::from_str("Player ");
    s.append(player_id);
    s.append(" joined");
    s
}

/// Announces that a player has left.
pub fn player_left(player_id: &str) -> (s: String)
    ensures
        s@ == left_text(player_id@),
{
    let mut s = String::from_str("Player ");
    s.append(player_id);
    s.append(" left");
    s
}

/// Tells the players that everybody is ready but that the room holds too
/// few players for its wolves.
pub fn more_players_needed(missing: usize, present: usize, wolves: usize, room_id: &str) -> (s:
    String)
    ensures
        s@ == more_needed_text(missing as nat, present as nat, wolves as nat, room_id@),
{
    let mut s = String::from_str("あと");
    s.append(decimal(missing as u64).as_str());
    s.append("人必要です（現在");
    s.append(decimal(present as u64).as_str());
    s.append("人、ワードウルフ");
    s.append(decimal(wolves as u64).as_str());
    s.append("人）。部屋ID「");
    s.append(room_id);
    s.append("」を他のプレイヤーに共有してください！");
    s
}

/// Announces that everybody is ready and the game begins.
pub fn everyone_ready() -> (s: String)
    ensures
        s@ == everyone_ready_text(),
{
    String::from_str("全員準備完了！ゲームを開始します...")
}

/// Announces that roles and themes have been dealt.
pub fn game_started() -> (s: String)
    ensures
        s@ == game_started_text(),
{
    String::from_str("Game started! Check your roles and themes.")
}

/// Announces the discussion and its time limit.
pub fn discussion_started(discussion_time: u64) -> (s: String)
    ensures
        s@ == discussion_text(discussion_time),
{
    let minutes = discussion_time / 60;
    let seconds = discussion_time % 60;
    let mut s = String::from_str("全員確認完了！ディスカッションを開始します。制限時間: ");
    s.append(decimal(minutes).as_str());
    s.append("分");
    s.append(decimal(seconds).as_str());
    s.append("秒");
    s
}

/// Announces the vote.
pub fn voting_started() -> (s: String)
    ensures
        s@ == voting_text(),
{
    String::from_str("投票フェーズが始まりました！ワードウルフだと思う人に投票してください。")
}

/// Announces who was voted out and with how many votes.
pub fn player_eliminated(player_id: &str, vote_count: usize) -> (s: String)
    ensures
        s@ == eliminated_text(player_id@, vote_count as nat),
{
    let mut s = String::from_str(player_id);
    s.append("さんが");
    s.append(decimal(vote_count as u64).as_str());
    s.append("票で脱落しました");
    s
}

/// Announces that the time to vote ran out without a vote.
pub fn nobody_voted() -> (s: String)
    ensures
        s@ == nobody_voted_text(),
{
    String::from_str("投票がなかったため、誰も脱落しませんでした")
}

/// Announces the winners.
pub fn game_over(citizens_won: bool) -> (s: String)
    ensures
        s@ == game_over_text(citizens_won),
{
    if citizens_won {
        String::from_str("ゲーム終了！市民の勝利です！ワードウルフを見つけました！")
    } else {
        String::from_str("ゲーム終了！ワードウルフの勝利です！市民を騙すことに成功しました！")
    }
}

/// A line of chat.
pub fn chat_line(player_name: &str, message: &str) -> (s: String)
    ensures
        s@ == chat_text(player_name@, message@),
{
    let mut s = String::from_str("CHAT|");
    s.append(player_name);
    s.append("|");
    s.append(message);
    s
}

} // verus!
